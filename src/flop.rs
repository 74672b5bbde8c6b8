use vstd::prelude::*;

use crate::board::{board_from_text, count_height, Board};
use crate::card::{card_from_text, Card};
use crate::rank::{Rank, RankHeight};
use crate::suit::Suit;
use crate::error::ParseError;
use crate::text::text_is;
use crate::texture::{
    any_straight, disconnected, has_height, height_of, only_gutshot, only_oesd, suit_of, BoardHeight,
    BoardSuit,
};

verus! {

// Queries on the text of a flop, such as "KsAc7h", without building a `Board` first.
// Each asks for a valid flop: six characters coding three distinct cards.

/// The three groups of ranks that decide a flop's height.
#[derive(Clone, Copy, Debug, PartialEq, Eq, Structural, Hash)]
pub enum RankCategory {
    Broadway,
    Middling,
    Low,
}

/// Another name of the rank groups, used by the flop queries.
pub type CardCategory = RankCategory;

impl RankCategory {
    pub open spec fn height(self) -> RankHeight {
        match self {
            RankCategory::Broadway => RankHeight::Broadway,
            RankCategory::Middling => RankHeight::Middling,
            RankCategory::Low => RankHeight::Low,
        }
    }

    /// The group a rank belongs to.
    pub open spec fn of(rank: Rank) -> RankCategory {
        if rank.spec_is_bw() {
            RankCategory::Broadway
        } else if rank.spec_is_middling() {
            RankCategory::Middling
        } else {
            RankCategory::Low
        }
    }
}

pub open spec fn valid_flop(flop: Seq<char>) -> bool {
    board_from_text(flop) is Some
}

/// The flop's cards in ascending rank order.
pub open spec fn flop_cards(flop: Seq<char>) -> Seq<Card> {
    board_from_text(flop)->0
}

fn board_of(flop: &str) -> (r: Board)
    requires
        valid_flop(flop@),
    ensures
        r.wf(),
        r.cards@ == flop_cards(flop@),
{
    match Board::parse(flop) {
        Ok(b) => b,
        Err(_) => {
            assert(false);
            Board { cards: Vec::new() }
        },
    }
}

pub fn is_valid_rank(rank: &char) -> (r: bool)
    ensures
        r == Rank::from_code(*rank) is Some,
{
    Rank::parse(*rank).is_ok()
}

/// One of A, 2, 3, 4, 5.
pub fn is_wheel_rank(rank: &char) -> (r: bool)
    ensures
        r == (Rank::from_code(*rank) matches Some(x) && x.spec_is_wheel()),
{
    match Rank::parse(*rank) {
        Ok(x) => x.is_wheel(),
        Err(_) => false,
    }
}

pub fn is_valid_suit(suit: &char) -> (r: bool)
    ensures
        r == Suit::from_code(*suit) is Some,
{
    Suit::parse(*suit).is_ok()
}

pub fn is_valid_card(card: &str) -> (r: bool)
    ensures
        r == card_from_text(card@) is Some,
{
    Card::parse(card).is_ok()
}

/// Six characters coding three distinct cards.
pub fn is_valid_flop(flop: &str) -> (r: bool)
    ensures
        r == valid_flop(flop@),
{
    Board::parse(flop).is_ok()
}

/// A rank position, 0 to 12.
pub fn is_valid_value(value: &i8) -> (r: bool)
    ensures
        r == (0 <= *value <= 12),
{
    0 <= *value && *value <= 12
}

/// The rank character of the `i`-th card as written.
pub fn get_rank(flop: &str, i: usize) -> (r: char)
    requires
        valid_flop(flop@),
        i < 3,
    ensures
        r == flop@[2 * i as int],
{
    flop.get_char(2 * i)
}

/// The suit character of the `i`-th card as written.
pub fn get_suit(flop: &str, i: usize) -> (r: char)
    requires
        valid_flop(flop@),
        i < 3,
    ensures
        r == flop@[2 * i + 1],
{
    flop.get_char(2 * i + 1)
}

/// The text of the `i`-th card as written.
pub fn get_card(flop: &str, i: usize) -> (r: &str)
    requires
        valid_flop(flop@),
        i < 3,
    ensures
        r@ == flop@.subrange(2 * i as int, 2 * i + 2),
{
    flop.substring_char(2 * i, 2 * i + 2)
}

/// The rank characters as written.
pub fn get_ranks(flop: &str) -> (r: Vec<char>)
    requires
        valid_flop(flop@),
    ensures
        r@ == seq![flop@[0], flop@[2], flop@[4]],
{
    let r = vec![get_rank(flop, 0), get_rank(flop, 1), get_rank(flop, 2)];
    assert(r@ =~= seq![flop@[0], flop@[2], flop@[4]]);
    r
}

/// The suit characters as written.
pub fn get_suits(flop: &str) -> (r: Vec<char>)
    requires
        valid_flop(flop@),
    ensures
        r@ == seq![flop@[1], flop@[3], flop@[5]],
{
    let r = vec![get_suit(flop, 0), get_suit(flop, 1), get_suit(flop, 2)];
    assert(r@ =~= seq![flop@[1], flop@[3], flop@[5]]);
    r
}

/// The card texts as written.
pub fn get_cards(flop: &str) -> (r: Vec<&str>)
    requires
        valid_flop(flop@),
    ensures
        r@.len() == 3,
        forall|i: int| 0 <= i < 3 ==> (#[trigger] r@[i])@ == flop@.subrange(2 * i, 2 * i + 2),
{
    let r = vec![get_card(flop, 0), get_card(flop, 1), get_card(flop, 2)];
    r
}

/// The group of a rank character.
pub fn get_category(rank: &char) -> (r: RankCategory)
    requires
        Rank::from_code(*rank) is Some,
    ensures
        r == RankCategory::of(Rank::from_code(*rank)->0),
{
    let x = match Rank::parse(*rank) {
        Ok(x) => x,
        Err(_) => Rank::_2,
    };
    if x.is_bw() {
        RankCategory::Broadway
    } else if x.is_middling() {
        RankCategory::Middling
    } else {
        RankCategory::Low
    }
}

/// Same as `get_category`.
pub fn get_rank_category(rank: &char) -> (r: RankCategory)
    requires
        Rank::from_code(*rank) is Some,
    ensures
        r == RankCategory::of(Rank::from_code(*rank)->0),
{
    get_category(rank)
}

/// The position of a rank character, 0 for a deuce up to 12 for an ace.
pub fn get_value(rank: &char) -> (r: i8)
    requires
        Rank::from_code(*rank) is Some,
    ensures
        r == Rank::from_code(*rank)->0.value(),
{
    match Rank::parse(*rank) {
        Ok(x) => x.ordinal() as i8,
        Err(_) => 0,
    }
}

/// How many of the flop's cards are in the group; a pair counts twice.
pub fn num_card_category(flop: &str, category: CardCategory) -> (r: usize)
    requires
        valid_flop(flop@),
    ensures
        r == count_height(flop_cards(flop@), category.height()),
{
    let h = match category {
        RankCategory::Broadway => RankHeight::Broadway,
        RankCategory::Middling => RankHeight::Middling,
        RankCategory::Low => RankHeight::Low,
    };
    board_of(flop).num_rank_height(&h)
}

/// Same as `num_card_category`.
pub fn num_rank_category(flop: &str, category: &RankCategory) -> (r: usize)
    requires
        valid_flop(flop@),
    ensures
        r == count_height(flop_cards(flop@), category.height()),
{
    num_card_category(flop, *category)
}

pub fn is_1bw(flop: &str) -> (r: bool)
    requires
        valid_flop(flop@),
    ensures
        r == has_height(flop_cards(flop@), BoardHeight::SingleBW),
{
    board_of(flop).is_1bw()
}

pub fn is_2bw(flop: &str) -> (r: bool)
    requires
        valid_flop(flop@),
    ensures
        r == has_height(flop_cards(flop@), BoardHeight::DoubleBW),
{
    board_of(flop).is_2bw()
}

pub fn is_3bw(flop: &str) -> (r: bool)
    requires
        valid_flop(flop@),
    ensures
        r == has_height(flop_cards(flop@), BoardHeight::TripleBW),
{
    board_of(flop).is_3bw()
}

pub fn is_middling(flop: &str) -> (r: bool)
    requires
        valid_flop(flop@),
    ensures
        r == has_height(flop_cards(flop@), BoardHeight::Middling),
{
    board_of(flop).is_middling()
}

pub fn is_low(flop: &str) -> (r: bool)
    requires
        valid_flop(flop@),
    ensures
        r == has_height(flop_cards(flop@), BoardHeight::Low),
{
    board_of(flop).is_low()
}

/// Size of the largest group of cards sharing a suit.
pub open spec fn largest_suit_group(cs: Seq<Card>) -> int {
    let (a, b, c) = (cs[0].suit, cs[1].suit, cs[2].suit);
    if a == b && b == c {
        3
    } else if a == b || b == c || a == c {
        2
    } else {
        1
    }
}

/// How many cards the most frequent suit has.
pub fn get_max_suit_count(flop: &str) -> (r: i32)
    requires
        valid_flop(flop@),
    ensures
        r == largest_suit_group(flop_cards(flop@)),
{
    let u = board_of(flop).num_unique_suits();
    if u == 1 {
        3
    } else if u == 2 {
        2
    } else {
        1
    }
}

pub fn is_rainbow(flop: &str) -> (r: bool)
    requires
        valid_flop(flop@),
    ensures
        r == (suit_of(flop_cards(flop@)) == BoardSuit::Rainbow),
{
    board_of(flop).is_rainbow()
}

pub fn is_twotone(flop: &str) -> (r: bool)
    requires
        valid_flop(flop@),
    ensures
        r == (suit_of(flop_cards(flop@)) == BoardSuit::Twotone),
{
    board_of(flop).is_twotone()
}

pub fn is_monotone(flop: &str) -> (r: bool)
    requires
        valid_flop(flop@),
    ensures
        r == (suit_of(flop_cards(flop@)) == BoardSuit::Montone),
{
    board_of(flop).is_monotone()
}

/// A normal or wheel straight is possible.
pub fn is_straight_possible(flop: &str) -> (r: bool)
    requires
        valid_flop(flop@),
    ensures
        r == any_straight(flop_cards(flop@)),
{
    board_of(flop).is_any_straight_possible()
}

/// Only an open-ended straight draw is possible, no straight.
pub fn is_oesd_possible(flop: &str) -> (r: bool)
    requires
        valid_flop(flop@),
    ensures
        r == only_oesd(flop_cards(flop@)),
{
    board_of(flop).is_only_oesd_possible()
}

/// Height of a flop, as the flop queries name it.
#[derive(Clone, Copy, Debug, PartialEq, Eq, Structural, Hash)]
pub enum FlopHeight {
    SingleBW,
    DoubleBW,
    TripleBW,
    Middling,
    Low,
}

/// Suit pattern of a flop, as the flop queries name it.
#[derive(Clone, Copy, Debug, PartialEq, Eq, Structural, Hash)]
pub enum FlopSuitType {
    Rainbow,
    Twotone,
    Montone,
}

/// Straight potential of a flop, one class per flop in the order straight, open-ended
/// draw, gutshot, disconnected.
#[derive(Clone, Copy, Debug, PartialEq, Eq, Structural, Hash)]
pub enum FlopConnectedness {
    Disconnected,
    Gutshot,
    OESD,
    Straight,
}

impl FlopHeight {
    pub open spec fn board_height(self) -> BoardHeight {
        match self {
            FlopHeight::SingleBW => BoardHeight::SingleBW,
            FlopHeight::DoubleBW => BoardHeight::DoubleBW,
            FlopHeight::TripleBW => BoardHeight::TripleBW,
            FlopHeight::Middling => BoardHeight::Middling,
            FlopHeight::Low => BoardHeight::Low,
        }
    }

    /// Reads a height from its code: `1BW`, `2BW`, `3BW`, `MID` or `LOW`.
    pub fn from_str(s: &str) -> (r: Result<FlopHeight, ParseError>)
        ensures
            r matches Ok(h) ==> BoardHeight::from_code(s@) == Some(h.board_height()),
            r is Err <==> BoardHeight::from_code(s@) is None,
    {
        match BoardHeight::parse(s) {
            Ok(BoardHeight::SingleBW) => Ok(FlopHeight::SingleBW),
            Ok(BoardHeight::DoubleBW) => Ok(FlopHeight::DoubleBW),
            Ok(BoardHeight::TripleBW) => Ok(FlopHeight::TripleBW),
            Ok(BoardHeight::Middling) => Ok(FlopHeight::Middling),
            Ok(BoardHeight::Low) => Ok(FlopHeight::Low),
            Err(e) => Err(e),
        }
    }

    /// The code of the height.
    pub fn as_str(&self) -> (r: &'static str)
        ensures
            r@ == self.board_height().code(),
    {
        match self {
            FlopHeight::SingleBW => "1BW",
            FlopHeight::DoubleBW => "2BW",
            FlopHeight::TripleBW => "3BW",
            FlopHeight::Middling => "MID",
            FlopHeight::Low => "LOW",
        }
    }
}

impl FlopSuitType {
    pub open spec fn board_suit(self) -> BoardSuit {
        match self {
            FlopSuitType::Rainbow => BoardSuit::Rainbow,
            FlopSuitType::Twotone => BoardSuit::Twotone,
            FlopSuitType::Montone => BoardSuit::Montone,
        }
    }

    /// Reads a suit pattern from its code: `R`, `T` or `M`.
    pub fn from_str(s: &str) -> (r: Result<FlopSuitType, ParseError>)
        ensures
            r matches Ok(t) ==> BoardSuit::from_code(s@) == Some(t.board_suit()),
            r is Err <==> BoardSuit::from_code(s@) is None,
    {
        match BoardSuit::parse(s) {
            Ok(BoardSuit::Rainbow) => Ok(FlopSuitType::Rainbow),
            Ok(BoardSuit::Twotone) => Ok(FlopSuitType::Twotone),
            Ok(BoardSuit::Montone) => Ok(FlopSuitType::Montone),
            Err(e) => Err(e),
        }
    }

    /// The code of the suit pattern.
    pub fn as_str(&self) -> (r: &'static str)
        ensures
            r@ == self.board_suit().code(),
    {
        match self {
            FlopSuitType::Rainbow => "R",
            FlopSuitType::Twotone => "T",
            FlopSuitType::Montone => "M",
        }
    }
}

impl FlopConnectedness {
    pub open spec fn code(self) -> Seq<char> {
        match self {
            FlopConnectedness::Disconnected => "DC"@,
            FlopConnectedness::Gutshot => "GS"@,
            FlopConnectedness::OESD => "OESD"@,
            FlopConnectedness::Straight => "STR"@,
        }
    }

    pub open spec fn holds(self, cs: Seq<Card>) -> bool {
        match self {
            FlopConnectedness::Disconnected => disconnected(cs),
            FlopConnectedness::Gutshot => only_gutshot(cs),
            FlopConnectedness::OESD => only_oesd(cs),
            FlopConnectedness::Straight => any_straight(cs),
        }
    }

    /// Reads a connectedness from its code: `DC`, `GS`, `OESD` or `STR`.
    pub fn from_str(s: &str) -> (r: Result<FlopConnectedness, ParseError>)
        ensures
            r matches Ok(c) ==> s@ == c.code(),
            r matches Err(e) ==> (forall|c: FlopConnectedness| s@ != c.code()) && e.kind@
                == "connectedness"@ && e.input@ == s@,
    {
        if text_is(s, "DC") {
            Ok(FlopConnectedness::Disconnected)
        } else if text_is(s, "GS") {
            Ok(FlopConnectedness::Gutshot)
        } else if text_is(s, "OESD") {
            Ok(FlopConnectedness::OESD)
        } else if text_is(s, "STR") {
            Ok(FlopConnectedness::Straight)
        } else {
            proof {
                reveal_strlit("connectedness");
            }
            Err(ParseError::str("connectedness", s))
        }
    }

    /// The code of the connectedness.
    pub fn as_str(&self) -> (r: &'static str)
        ensures
            r@ == self.code(),
    {
        match self {
            FlopConnectedness::Disconnected => "DC",
            FlopConnectedness::Gutshot => "GS",
            FlopConnectedness::OESD => "OESD",
            FlopConnectedness::Straight => "STR",
        }
    }
}

pub fn is_height(flop: &str, height: &FlopHeight) -> (r: bool)
    requires
        valid_flop(flop@),
    ensures
        r == has_height(flop_cards(flop@), height.board_height()),
{
    match height {
        FlopHeight::TripleBW => is_3bw(flop),
        FlopHeight::DoubleBW => is_2bw(flop),
        FlopHeight::SingleBW => is_1bw(flop),
        FlopHeight::Middling => is_middling(flop),
        FlopHeight::Low => is_low(flop),
    }
}

/// The one height that the flop has.
pub fn get_height(flop: &str) -> (r: FlopHeight)
    requires
        valid_flop(flop@),
    ensures
        r.board_height() == height_of(flop_cards(flop@)),
{
    match board_of(flop).height() {
        BoardHeight::SingleBW => FlopHeight::SingleBW,
        BoardHeight::DoubleBW => FlopHeight::DoubleBW,
        BoardHeight::TripleBW => FlopHeight::TripleBW,
        BoardHeight::Middling => FlopHeight::Middling,
        BoardHeight::Low => FlopHeight::Low,
    }
}

pub fn is_suit_type(flop: &str, suit_type: &FlopSuitType) -> (r: bool)
    requires
        valid_flop(flop@),
    ensures
        r == (suit_of(flop_cards(flop@)) == suit_type.board_suit()),
{
    match suit_type {
        FlopSuitType::Rainbow => is_rainbow(flop),
        FlopSuitType::Twotone => is_twotone(flop),
        FlopSuitType::Montone => is_monotone(flop),
    }
}

/// The suit pattern of the flop.
pub fn get_suit_type(flop: &str) -> (r: FlopSuitType)
    requires
        valid_flop(flop@),
    ensures
        r.board_suit() == suit_of(flop_cards(flop@)),
{
    match board_of(flop).suit_pattern() {
        BoardSuit::Rainbow => FlopSuitType::Rainbow,
        BoardSuit::Twotone => FlopSuitType::Twotone,
        BoardSuit::Montone => FlopSuitType::Montone,
    }
}

/// Neither a straight nor an open-ended draw, but a gutshot is possible.
pub fn is_gutshot_possible(flop: &str) -> (r: bool)
    requires
        valid_flop(flop@),
    ensures
        r == only_gutshot(flop_cards(flop@)),
{
    board_of(flop).is_only_gutshot_possible()
}

/// No ace on top and every adjacent distance above four.
pub fn is_disconnected(flop: &str) -> (r: bool)
    requires
        valid_flop(flop@),
    ensures
        r == disconnected(flop_cards(flop@)),
{
    board_of(flop).is_disconnected()
}

/// The first class the flop is in, in the order straight, open-ended draw, gutshot,
/// disconnected; none for an ace-high flop that is in none of them.
pub fn get_connectedness(flop: &str) -> (r: Option<FlopConnectedness>)
    requires
        valid_flop(flop@),
    ensures
        r matches Some(c) ==> c.holds(flop_cards(flop@)),
        r is None ==> forall|c: FlopConnectedness| !c.holds(flop_cards(flop@)),
{
    let b = board_of(flop);
    if b.is_any_straight_possible() {
        Some(FlopConnectedness::Straight)
    } else if b.is_only_oesd_possible() {
        Some(FlopConnectedness::OESD)
    } else if b.is_only_gutshot_possible() {
        Some(FlopConnectedness::Gutshot)
    } else if b.is_disconnected() {
        Some(FlopConnectedness::Disconnected)
    } else {
        None
    }
}

pub fn is_connectedness(flop: &str, connectedness: &FlopConnectedness) -> (r: bool)
    requires
        valid_flop(flop@),
    ensures
        r == connectedness.holds(flop_cards(flop@)),
{
    match connectedness {
        FlopConnectedness::Straight => is_straight_possible(flop),
        FlopConnectedness::OESD => is_oesd_possible(flop),
        FlopConnectedness::Gutshot => is_gutshot_possible(flop),
        FlopConnectedness::Disconnected => is_disconnected(flop),
    }
}

} // verus!
