use vstd::prelude::*;

use crate::card::{card_from_text, Card};
use crate::error::ParseError;
use crate::rank::{Rank, RankHeight};

verus! {

/// A flop: three distinct cards, kept in ascending rank order.
///
/// Ranks may repeat (paired and trips boards); identical cards may not.
/// Among cards of equal rank the order of the text they were read from is kept.
#[derive(Debug, PartialEq, Eq)]
pub struct Board {
    pub cards: Vec<Card>,
}

/// Three cards in ascending rank order, pairwise distinct.
pub open spec fn board_cards_wf(cs: Seq<Card>) -> bool {
    &&& cs.len() == 3
    &&& cs[0].rank.value() <= cs[1].rank.value() <= cs[2].rank.value()
    &&& cs[0] != cs[1] && cs[1] != cs[2] && cs[0] != cs[2]
}

/// The three cards ordered by rank; cards of equal rank keep their order (a stable sort).
pub open spec fn sort3(a: Card, b: Card, c: Card) -> Seq<Card> {
    let (x, y, z) = (a.rank.value(), b.rank.value(), c.rank.value());
    if x <= y && y <= z {
        seq![a, b, c]
    } else if x <= z && z < y {
        seq![a, c, b]
    } else if y < x && x <= z {
        seq![b, a, c]
    } else if y <= z && z < x {
        seq![b, c, a]
    } else if z < x && x <= y {
        seq![c, a, b]
    } else {
        seq![c, b, a]
    }
}

/// The board that a six-character text codes, as its sorted cards, if any.
pub open spec fn board_from_text(s: Seq<char>) -> Option<Seq<Card>> {
    if s.len() != 6 {
        None
    } else {
        match (
            card_from_text(s.subrange(0, 2)),
            card_from_text(s.subrange(2, 4)),
            card_from_text(s.subrange(4, 6)),
        ) {
            (Some(a), Some(b), Some(c)) => if a != b && b != c && a != c {
                Some(sort3(a, b, c))
            } else {
                None
            },
            _ => None,
        }
    }
}

/// The text of a board: its cards' texts, one after another.
pub open spec fn board_text(cs: Seq<Card>) -> Seq<char> {
    cs[0].text() + cs[1].text() + cs[2].text()
}

/// How many of the cards have a rank in the group.
pub open spec fn count_height(cs: Seq<Card>, h: RankHeight) -> nat {
    (if cs[0].rank.spec_is_height(h) { 1nat } else { 0nat })
        + (if cs[1].rank.spec_is_height(h) { 1nat } else { 0nat })
        + (if cs[2].rank.spec_is_height(h) { 1nat } else { 0nat })
}

/// Number of distinct suits among the three cards.
pub open spec fn unique_suits(cs: Seq<Card>) -> nat {
    let (a, b, c) = (cs[0].suit, cs[1].suit, cs[2].suit);
    if a == b && b == c {
        1
    } else if a == b || b == c || a == c {
        2
    } else {
        3
    }
}

/// Number of distinct ranks among the three cards.
pub open spec fn unique_ranks(cs: Seq<Card>) -> nat {
    let (a, b, c) = (cs[0].rank, cs[1].rank, cs[2].rank);
    if a == b && b == c {
        1
    } else if a == b || b == c || a == c {
        2
    } else {
        3
    }
}

proof fn lemma_sort3(a: Card, b: Card, c: Card)
    requires
        a != b && b != c && a != c,
    ensures
        board_cards_wf(sort3(a, b, c)),
{
}

impl Board {
    pub open spec fn wf(&self) -> bool {
        board_cards_wf(self.cards@)
    }

    /// Reads a board from six characters, three cards of rank then suit, such as `"Ts9c8h"`.
    ///
    /// Any failure (wrong length, a bad card, a card given twice) is a `"board"` error
    /// that carries the whole text.
    pub fn parse(s: &str) -> (r: Result<Board, ParseError>)
        ensures
            r matches Ok(b) ==> b.wf() && board_from_text(s@) == Some(b.cards@),
            r matches Err(e) ==> e.kind@ == "board"@ && e.input@ == s@,
            r.is_ok() <==> board_from_text(s@).is_some(),
    {
        if s.unicode_len() != 6 {
            proof {
                reveal_strlit("board");
            }
            return Err(ParseError::str("board", s));
        }
        let ghost t = s@;
        assert(t.subrange(0, 2) =~= seq![t[0], t[1]]);
        assert(t.subrange(2, 4) =~= seq![t[2], t[3]]);
        assert(t.subrange(4, 6) =~= seq![t[4], t[5]]);
        let a = Card::from_chars(s.get_char(0), s.get_char(1));
        let b = Card::from_chars(s.get_char(2), s.get_char(3));
        let c = Card::from_chars(s.get_char(4), s.get_char(5));
        match (a, b, c) {
            (Ok(a), Ok(b), Ok(c)) => {
                if a == b || b == c || a == c {
                    proof {
                        reveal_strlit("board");
                    }
                    Err(ParseError::str("board", s))
                } else {
                    proof {
                        lemma_sort3(a, b, c);
                    }
                    Ok(Board { cards: sort_three(a, b, c) })
                }
            },
            _ => {
                proof {
                    reveal_strlit("board");
                }
                Err(ParseError::str("board", s))
            },
        }
    }

    /// The board's text: its cards in ascending rank order, such as `"8hTs9c"` read as `"8h9cTs"`.
    pub fn to_string(&self) -> (r: String)
        requires
            self.wf(),
        ensures
            r@ == board_text(self.cards@),
    {
        let mut r = self.cards[0].to_string();
        let second = self.cards[1].to_string();
        let third = self.cards[2].to_string();
        r.append(second.as_str());
        r.append(third.as_str());
        r
    }

    /// A board with the same cards.
    pub fn copy(&self) -> (r: Board)
        requires
            self.wf(),
        ensures
            r.cards@ == self.cards@,
            r.wf(),
    {
        let r = Board { cards: vec![self.cards[0], self.cards[1], self.cards[2]] };
        assert(r.cards@ =~= self.cards@);
        r
    }

    /// Same cards in the same order.
    pub fn same_as(&self, other: &Board) -> (r: bool)
        requires
            self.wf(),
            other.wf(),
        ensures
            r == (self.cards@ == other.cards@),
    {
        let r = self.cards[0] == other.cards[0] && self.cards[1] == other.cards[1] && self.cards[2]
            == other.cards[2];
        if r {
            assert(self.cards@ =~= other.cards@);
        }
        r
    }

    /// The card of lowest rank (the first of them where ranks tie).
    pub fn get_lowest_card(&self) -> (r: &Card)
        requires
            self.wf(),
        ensures
            *r == self.cards@[0],
            forall|i: int| 0 <= i < 3 ==> r.rank.value() <= #[trigger] self.cards@[i].rank.value(),
    {
        &self.cards[0]
    }

    /// The card of highest rank (the last of them where ranks tie).
    pub fn get_highest_card(&self) -> (r: &Card)
        requires
            self.wf(),
        ensures
            *r == self.cards@[2],
            forall|i: int| 0 <= i < 3 ==> #[trigger] self.cards@[i].rank.value() <= r.rank.value(),
    {
        &self.cards[2]
    }

    /// How many of the three cards have a rank in the group; a pair counts twice.
    pub fn num_rank_height(&self, height: &RankHeight) -> (r: usize)
        requires
            self.wf(),
        ensures
            r == count_height(self.cards@, *height),
    {
        let mut n: usize = 0;
        if self.cards[0].is_height(height) {
            n = n + 1;
        }
        if self.cards[1].is_height(height) {
            n = n + 1;
        }
        if self.cards[2].is_height(height) {
            n = n + 1;
        }
        n
    }

    /// Number of distinct suits on the board: 1, 2 or 3.
    pub fn num_unique_suits(&self) -> (r: usize)
        requires
            self.wf(),
        ensures
            r == unique_suits(self.cards@),
    {
        let a = self.cards[0].suit;
        let b = self.cards[1].suit;
        let c = self.cards[2].suit;
        if a == b && b == c {
            1
        } else if a == b || b == c || a == c {
            2
        } else {
            3
        }
    }

    /// Number of distinct ranks on the board: 1, 2 or 3.
    pub fn num_unique_ranks(&self) -> (r: usize)
        requires
            self.wf(),
        ensures
            r == unique_ranks(self.cards@),
    {
        let a = self.cards[0].rank;
        let b = self.cards[1].rank;
        let c = self.cards[2].rank;
        if a == b && b == c {
            1
        } else if a == b || b == c || a == c {
            2
        } else {
            3
        }
    }
}

/// The three cards in a vector, ordered as `sort3` says.
fn sort_three(a: Card, b: Card, c: Card) -> (r: Vec<Card>)
    ensures
        r@ == sort3(a, b, c),
{
    let (x, y, z) = (a.rank.ordinal(), b.rank.ordinal(), c.rank.ordinal());
    if x <= y && y <= z {
        vec![a, b, c]
    } else if x <= z && z < y {
        vec![a, c, b]
    } else if y < x && x <= z {
        vec![b, a, c]
    } else if y <= z && z < x {
        vec![b, c, a]
    } else if z < x && x <= y {
        vec![c, a, b]
    } else {
        vec![c, b, a]
    }
}

impl<'a> TryFrom<&'a str> for Board {
    type Error = ParseError;

    /// Same as `Board::parse`, whose contract states the result.
    fn try_from(s: &'a str) -> Result<Board, ParseError> {
        Board::parse(s)
    }
}

impl<'a> vstd::std_specs::convert::TryFromSpecImpl<&'a str> for Board {
    open spec fn obeys_try_from_spec() -> bool {
        false
    }

    open spec fn try_from_spec(s: &'a str) -> Result<Board, ParseError> {
        arbitrary()
    }
}

/// Reading a board and writing it back is stable: the written text reads as the same
/// cards in the same order, so a second round trip gives the same text again.
pub proof fn lemma_board_text_round_trip(s: Seq<char>)
    requires
        board_from_text(s).is_some(),
    ensures
        board_from_text(board_text(board_from_text(s)->0)) == board_from_text(s),
        board_text(board_from_text(board_text(board_from_text(s)->0))->0) == board_text(
            board_from_text(s)->0,
        ),
{
    let a = card_from_text(s.subrange(0, 2))->0;
    let b = card_from_text(s.subrange(2, 4))->0;
    let c = card_from_text(s.subrange(4, 6))->0;
    lemma_sort3(a, b, c);
    let cs = sort3(a, b, c);
    let t = board_text(cs);
    assert(t.subrange(0, 2) =~= cs[0].text());
    assert(t.subrange(2, 4) =~= cs[1].text());
    assert(t.subrange(4, 6) =~= cs[2].text());
    crate::card::lemma_card_text_round_trip(cs[0]);
    crate::card::lemma_card_text_round_trip(cs[1]);
    crate::card::lemma_card_text_round_trip(cs[2]);
    assert(sort3(cs[0], cs[1], cs[2]) =~= cs);
}

} // verus!
