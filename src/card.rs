use vstd::prelude::*;

use crate::error::ParseError;
use crate::rank::{Rank, RankHeight};
use crate::suit::Suit;
use std::cmp::Ordering;

verus! {

/// A playing card. Two cards are equal when rank and suit both agree;
/// they are ordered by rank alone.
#[derive(Clone, Copy, Debug, PartialEq, Eq, Structural, Hash)]
pub struct Card {
    pub rank: Rank,
    pub suit: Suit,
}

/// The card that a two-character text codes, if any.
pub open spec fn card_from_text(s: Seq<char>) -> Option<Card> {
    if s.len() != 2 {
        None
    } else {
        match (Rank::from_code(s[0]), Suit::from_code(s[1])) {
            (Some(rank), Some(suit)) => Some(Card { rank, suit }),
            _ => None,
        }
    }
}

/// Absolute rank difference of each card and the one after it.
pub open spec fn distances(cards: Seq<Card>) -> Seq<int> {
    Seq::new(
        if cards.len() == 0 { 0 } else { (cards.len() - 1) as nat },
        |i: int| abs_int(cards[i + 1].rank.value() - cards[i].rank.value()),
    )
}

pub open spec fn abs_int(x: int) -> int {
    if x < 0 { -x } else { x }
}

impl Card {
    /// The two characters that code the card.
    pub open spec fn text(self) -> Seq<char> {
        seq![self.rank.code(), self.suit.code()]
    }

    /// Reads a card from two characters, rank first.
    pub fn from_chars(rank: char, suit: char) -> (r: Result<Card, ParseError>)
        ensures
            r matches Ok(card) ==> card_from_text(seq![rank, suit]) == Some(card),
            r matches Err(e) ==> card_from_text(seq![rank, suit]).is_none()
                && (if Rank::from_code(rank).is_none() {
                    e.kind@ == "rank"@ && e.input@ == seq![rank]
                } else {
                    e.kind@ == "suit"@ && e.input@ == seq![suit]
                }),
            r.is_ok() <==> card_from_text(seq![rank, suit]).is_some(),
    {
        let rank = match Rank::parse(rank) {
            Ok(x) => x,
            Err(e) => return Err(e),
        };
        let suit = match Suit::parse(suit) {
            Ok(x) => x,
            Err(e) => return Err(e),
        };
        Ok(Card { rank, suit })
    }

    /// Reads a card from its two-character text, such as `"As"`.
    pub fn parse(s: &str) -> (r: Result<Card, ParseError>)
        ensures
            r matches Ok(card) ==> card_from_text(s@) == Some(card),
            r matches Err(e) ==> card_from_text(s@).is_none()
                && (if s@.len() != 2 {
                    e.kind@ == "card"@ && e.input@ == s@
                } else if Rank::from_code(s@[0]).is_none() {
                    e.kind@ == "rank"@ && e.input@ == seq![s@[0]]
                } else {
                    e.kind@ == "suit"@ && e.input@ == seq![s@[1]]
                }),
            r.is_ok() <==> card_from_text(s@).is_some(),
    {
        if s.unicode_len() != 2 {
            let e = ParseError::str("card", s);
            proof {
                reveal_strlit("card");
            }
            return Err(e);
        }
        let rank = s.get_char(0);
        let suit = s.get_char(1);
        assert(s@ == seq![rank, suit]);
        Card::from_chars(rank, suit)
    }

    /// The two characters that code the card, such as `"As"`.
    pub fn to_string(&self) -> (r: String)
        ensures
            r@ == self.text(),
    {
        let mut r = crate::error::char_text(self.rank.to_char());
        let suit = crate::error::char_text(self.suit.to_char());
        r.append(suit.as_str());
        r
    }

    pub fn is_bw(&self) -> (r: bool)
        ensures
            r == self.rank.spec_is_bw(),
    {
        self.rank.is_bw()
    }

    pub fn is_middling(&self) -> (r: bool)
        ensures
            r == self.rank.spec_is_middling(),
    {
        self.rank.is_middling()
    }

    pub fn is_low(&self) -> (r: bool)
        ensures
            r == self.rank.spec_is_low(),
    {
        self.rank.is_low()
    }

    pub fn is_wheel(&self) -> (r: bool)
        ensures
            r == self.rank.spec_is_wheel(),
    {
        self.rank.is_wheel()
    }

    pub fn is_height(&self, height: &RankHeight) -> (r: bool)
        ensures
            r == self.rank.spec_is_height(*height),
    {
        self.rank.is_height(height)
    }

    pub fn get_heights(&self) -> (r: Vec<RankHeight>)
        ensures
            forall|h: RankHeight| r@.contains(h) <==> self.rank.spec_is_height(h),
            r@.no_duplicates(),
    {
        self.rank.get_heights()
    }

    pub fn is_ace(&self) -> (r: bool)
        ensures
            r == (self.rank == Rank::A),
    {
        self.rank == Rank::A
    }

    /// Signed rank difference `self - other`; the suits play no part.
    pub fn diff(&self, other: &Card) -> (r: i32)
        ensures
            r == self.rank.value() - other.rank.value(),
    {
        self.rank.diff(&other.rank)
    }

    /// The absolute rank difference of each card and the next one, in the given order.
    pub fn get_distances(cards: &Vec<Card>) -> (r: Vec<i32>)
        ensures
            r@.len() == distances(cards@).len(),
            forall|i: int| 0 <= i < r@.len() ==> r@[i] as int == distances(cards@)[i],
    {
        let mut r: Vec<i32> = Vec::new();
        let mut i: usize = 1;
        while i < cards.len()
            invariant
                1 <= i,
                cards@.len() > 0 ==> i <= cards@.len(),
                cards@.len() == 0 ==> i == 1,
                r@.len() == i - 1,
                r@.len() <= distances(cards@).len(),
                forall|j: int| 0 <= j < r@.len() ==> r@[j] as int == distances(cards@)[j],
            decreases cards@.len() - i,
        {
            let d = cards[i].diff(&cards[i - 1]);
            let d = if d < 0 { -d } else { d };
            r.push(d);
            i = i + 1;
        }
        r
    }

    /// Compares two cards by rank alone.
    pub fn cmp(&self, other: &Card) -> (r: Ordering)
        ensures
            r == rank_order(*self, *other),
    {
        let a = self.rank.ordinal();
        let b = other.rank.ordinal();
        if a < b {
            Ordering::Less
        } else if a > b {
            Ordering::Greater
        } else {
            Ordering::Equal
        }
    }
}

/// How two cards compare by rank.
pub open spec fn rank_order(a: Card, b: Card) -> Ordering {
    if a.rank.value() < b.rank.value() {
        Ordering::Less
    } else if a.rank.value() > b.rank.value() {
        Ordering::Greater
    } else {
        Ordering::Equal
    }
}

impl PartialOrd for Card {
    fn partial_cmp(&self, other: &Card) -> (r: Option<Ordering>) {
        Some(self.cmp(other))
    }
}

impl vstd::std_specs::cmp::PartialOrdSpecImpl for Card {
    open spec fn obeys_partial_cmp_spec() -> bool {
        true
    }

    open spec fn partial_cmp_spec(&self, other: &Card) -> Option<Ordering> {
        Some(rank_order(*self, *other))
    }
}

impl<'a> TryFrom<&'a str> for Card {
    type Error = ParseError;

    /// Same as `Card::parse`, whose contract states the result.
    fn try_from(s: &'a str) -> Result<Card, ParseError> {
        Card::parse(s)
    }
}

impl<'a> vstd::std_specs::convert::TryFromSpecImpl<&'a str> for Card {
    open spec fn obeys_try_from_spec() -> bool {
        false
    }

    open spec fn try_from_spec(s: &'a str) -> Result<Card, ParseError> {
        arbitrary()
    }
}

impl TryFrom<(char, char)> for Card {
    type Error = ParseError;

    /// Same as `Card::from_chars`, whose contract states the result.
    fn try_from(chars: (char, char)) -> Result<Card, ParseError> {
        Card::from_chars(chars.0, chars.1)
    }
}

impl vstd::std_specs::convert::TryFromSpecImpl<(char, char)> for Card {
    open spec fn obeys_try_from_spec() -> bool {
        false
    }

    open spec fn try_from_spec(chars: (char, char)) -> Result<Card, ParseError> {
        arbitrary()
    }
}

impl std::ops::Sub for Card {
    type Output = i32;

    fn sub(self, rhs: Card) -> i32 {
        self.diff(&rhs)
    }
}

impl vstd::std_specs::ops::SubSpecImpl for Card {
    open spec fn obeys_sub_spec() -> bool {
        true
    }

    open spec fn sub_req(self, rhs: Card) -> bool {
        true
    }

    open spec fn sub_spec(self, rhs: Card) -> i32 {
        (self.rank.value() - rhs.rank.value()) as i32
    }
}

impl<'a, 'b> std::ops::Sub<&'b Card> for &'a Card {
    type Output = i32;

    fn sub(self, rhs: &'b Card) -> i32 {
        self.diff(rhs)
    }
}

impl<'a, 'b> vstd::std_specs::ops::SubSpecImpl<&'b Card> for &'a Card {
    open spec fn obeys_sub_spec() -> bool {
        true
    }

    open spec fn sub_req(self, rhs: &'b Card) -> bool {
        true
    }

    open spec fn sub_spec(self, rhs: &'b Card) -> i32 {
        (self.rank.value() - rhs.rank.value()) as i32
    }
}

/// Every card is read back from its own text.
pub proof fn lemma_card_text_round_trip(card: Card)
    ensures
        card_from_text(card.text()) == Some(card),
{
}

} // verus!
