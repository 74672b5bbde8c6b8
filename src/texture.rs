use vstd::prelude::*;

use crate::board::{count_height, unique_ranks, unique_suits, Board};
use crate::card::Card;
use crate::error::ParseError;
use crate::rank::{Rank, RankHeight};
use crate::text::text_is;

verus! {

/// Height of a board: how many broadway cards it has, else whether it has a middling card.
#[derive(Clone, Copy, Debug, PartialEq, Eq, Structural, Hash)]
pub enum BoardHeight {
    TripleBW,
    DoubleBW,
    SingleBW,
    Middling,
    Low,
}

/// Suit pattern of a board: three, two or one distinct suits.
#[derive(Clone, Copy, Debug, PartialEq, Eq, Structural, Hash)]
pub enum BoardSuit {
    Rainbow,
    Twotone,
    Montone,
}

/// Pairing of a board: three, two or one distinct ranks.
#[derive(Clone, Copy, Debug, PartialEq, Eq, Structural, Hash)]
pub enum BoardPair {
    Unpaired,
    Paired,
    Trips,
}

/// Straight potential of a board, as it can be asked for in a filter.
#[derive(Clone, Copy, Debug, PartialEq, Eq, Structural, Hash)]
pub enum Connection {
    Disconnected,
    Gutshot,
    OESD,
    Wheel,
    NormalStraight,
    AnyStraight,
}

/// Another name of the connection categories.
pub type BoardConnection = Connection;

// ---------------------------------------------------------------------------
// Classification of three cards held in ascending rank order.

pub open spec fn value_at(cs: Seq<Card>, i: int) -> int {
    cs[i].rank.value()
}

pub open spec fn height_of(cs: Seq<Card>) -> BoardHeight {
    let bw = count_height(cs, RankHeight::Broadway);
    if bw == 3 {
        BoardHeight::TripleBW
    } else if bw == 2 {
        BoardHeight::DoubleBW
    } else if bw == 1 {
        BoardHeight::SingleBW
    } else if count_height(cs, RankHeight::Middling) > 0 {
        BoardHeight::Middling
    } else {
        BoardHeight::Low
    }
}

/// Whether the board has the height; `Low` means all three cards are low.
pub open spec fn has_height(cs: Seq<Card>, h: BoardHeight) -> bool {
    match h {
        BoardHeight::TripleBW => count_height(cs, RankHeight::Broadway) == 3,
        BoardHeight::DoubleBW => count_height(cs, RankHeight::Broadway) == 2,
        BoardHeight::SingleBW => count_height(cs, RankHeight::Broadway) == 1,
        BoardHeight::Middling => count_height(cs, RankHeight::Broadway) == 0 && count_height(
            cs,
            RankHeight::Middling,
        ) > 0,
        BoardHeight::Low => count_height(cs, RankHeight::Low) == 3,
    }
}

pub open spec fn suit_of(cs: Seq<Card>) -> BoardSuit {
    let u = unique_suits(cs);
    if u == 1 {
        BoardSuit::Montone
    } else if u == 2 {
        BoardSuit::Twotone
    } else {
        BoardSuit::Rainbow
    }
}

pub open spec fn pair_of(cs: Seq<Card>) -> BoardPair {
    let u = unique_ranks(cs);
    if u == 1 {
        BoardPair::Trips
    } else if u == 2 {
        BoardPair::Paired
    } else {
        BoardPair::Unpaired
    }
}

/// Three distinct ranks spanning at most four steps.
pub open spec fn normal_straight(cs: Seq<Card>) -> bool {
    &&& value_at(cs, 0) < value_at(cs, 1) < value_at(cs, 2)
    &&& value_at(cs, 2) - value_at(cs, 0) <= 4
}

/// All three ranks among A, 2, 3, 4, 5.
pub open spec fn wheel(cs: Seq<Card>) -> bool {
    cs[0].rank.spec_is_wheel() && cs[1].rank.spec_is_wheel() && cs[2].rank.spec_is_wheel()
}

pub open spec fn any_straight(cs: Seq<Card>) -> bool {
    normal_straight(cs) || wheel(cs)
}

/// A gap of one to three steps between adjacent cards once the aces are set aside.
///
/// In ascending order the aces come last, so the cards other than aces are a prefix,
/// and their adjacent pairs are (0, 1) when card 1 is no ace and (1, 2) when card 2 is no ace.
pub open spec fn oesd_gap(cs: Seq<Card>) -> bool {
    ||| (cs[1].rank != Rank::A && 1 <= value_at(cs, 1) - value_at(cs, 0) <= 3)
    ||| (cs[2].rank != Rank::A && 1 <= value_at(cs, 2) - value_at(cs, 1) <= 3)
}

pub open spec fn only_oesd(cs: Seq<Card>) -> bool {
    !any_straight(cs) && oesd_gap(cs)
}

/// Smallest rank distance between adjacent cards.
pub open spec fn min_distance(cs: Seq<Card>) -> int {
    let d1 = value_at(cs, 1) - value_at(cs, 0);
    let d2 = value_at(cs, 2) - value_at(cs, 1);
    if d1 <= d2 {
        d1
    } else {
        d2
    }
}

pub open spec fn only_gutshot(cs: Seq<Card>) -> bool {
    !any_straight(cs) && !only_oesd(cs) && min_distance(cs) <= 4
}

/// No ace on top, and every adjacent distance above four.
pub open spec fn disconnected(cs: Seq<Card>) -> bool {
    cs[2].rank != Rank::A && min_distance(cs) > 4
}

pub open spec fn has_connection(cs: Seq<Card>, c: Connection) -> bool {
    match c {
        Connection::Disconnected => disconnected(cs),
        Connection::Gutshot => only_gutshot(cs),
        Connection::OESD => only_oesd(cs),
        Connection::Wheel => wheel(cs),
        Connection::NormalStraight => normal_straight(cs),
        Connection::AnyStraight => any_straight(cs),
    }
}

// ---------------------------------------------------------------------------
// Codes of the categories.

impl BoardHeight {
    /// The value that a code names, if any.
    pub open spec fn from_code(t: Seq<char>) -> Option<BoardHeight> {
        if t == "1BW"@ {
            Some(BoardHeight::SingleBW)
        } else if t == "2BW"@ {
            Some(BoardHeight::DoubleBW)
        } else if t == "3BW"@ {
            Some(BoardHeight::TripleBW)
        } else if t == "MID"@ {
            Some(BoardHeight::Middling)
        } else if t == "LOW"@ {
            Some(BoardHeight::Low)
        } else {
            None
        }
    }

    pub open spec fn code(self) -> Seq<char> {
        match self {
            BoardHeight::SingleBW => "1BW"@,
            BoardHeight::DoubleBW => "2BW"@,
            BoardHeight::TripleBW => "3BW"@,
            BoardHeight::Middling => "MID"@,
            BoardHeight::Low => "LOW"@,
        }
    }

    /// Reads a height from its code: `1BW`, `2BW`, `3BW`, `MID` or `LOW`.
    pub fn parse(s: &str) -> (r: Result<BoardHeight, ParseError>)
        ensures
            r matches Ok(x) ==> BoardHeight::from_code(s@) == Some(x),
            r is Err <==> BoardHeight::from_code(s@) is None,
            r matches Ok(h) ==> s@ == h.code(),
            r matches Err(e) ==> (forall|h: BoardHeight| s@ != h.code()) && e.kind@ == "height"@
                && e.input@ == s@,
    {
        if text_is(s, "1BW") {
            Ok(BoardHeight::SingleBW)
        } else if text_is(s, "2BW") {
            Ok(BoardHeight::DoubleBW)
        } else if text_is(s, "3BW") {
            Ok(BoardHeight::TripleBW)
        } else if text_is(s, "MID") {
            Ok(BoardHeight::Middling)
        } else if text_is(s, "LOW") {
            Ok(BoardHeight::Low)
        } else {
            proof {
                reveal_strlit("height");
            }
            Err(ParseError::str("height", s))
        }
    }
}

impl BoardSuit {
    /// The value that a code names, if any.
    pub open spec fn from_code(t: Seq<char>) -> Option<BoardSuit> {
        if t == "R"@ {
            Some(BoardSuit::Rainbow)
        } else if t == "T"@ {
            Some(BoardSuit::Twotone)
        } else if t == "M"@ {
            Some(BoardSuit::Montone)
        } else {
            None
        }
    }

    pub open spec fn code(self) -> Seq<char> {
        match self {
            BoardSuit::Rainbow => "R"@,
            BoardSuit::Twotone => "T"@,
            BoardSuit::Montone => "M"@,
        }
    }

    /// Reads a suit pattern from its code: `R`, `T` or `M`.
    pub fn parse(s: &str) -> (r: Result<BoardSuit, ParseError>)
        ensures
            r matches Ok(x) ==> BoardSuit::from_code(s@) == Some(x),
            r is Err <==> BoardSuit::from_code(s@) is None,
            r matches Ok(p) ==> s@ == p.code(),
            r matches Err(e) ==> (forall|p: BoardSuit| s@ != p.code()) && e.kind@ == "suit"@
                && e.input@ == s@,
    {
        if text_is(s, "R") {
            Ok(BoardSuit::Rainbow)
        } else if text_is(s, "T") {
            Ok(BoardSuit::Twotone)
        } else if text_is(s, "M") {
            Ok(BoardSuit::Montone)
        } else {
            proof {
                reveal_strlit("suit");
            }
            Err(ParseError::str("suit", s))
        }
    }
}

impl BoardPair {
    /// The value that a code names, if any.
    pub open spec fn from_code(t: Seq<char>) -> Option<BoardPair> {
        if t == "U"@ {
            Some(BoardPair::Unpaired)
        } else if t == "P"@ {
            Some(BoardPair::Paired)
        } else if t == "T"@ {
            Some(BoardPair::Trips)
        } else {
            None
        }
    }

    pub open spec fn code(self) -> Seq<char> {
        match self {
            BoardPair::Unpaired => "U"@,
            BoardPair::Paired => "P"@,
            BoardPair::Trips => "T"@,
        }
    }

    /// Reads a pairing from its code: `U`, `P` or `T`.
    pub fn from_str(s: &str) -> (r: Result<BoardPair, ParseError>)
        ensures
            r matches Ok(x) ==> BoardPair::from_code(s@) == Some(x),
            r is Err <==> BoardPair::from_code(s@) is None,
            r matches Ok(p) ==> s@ == p.code(),
            r matches Err(e) ==> (forall|p: BoardPair| s@ != p.code()) && e.kind@ == "pair"@
                && e.input@ == s@,
    {
        if text_is(s, "U") {
            Ok(BoardPair::Unpaired)
        } else if text_is(s, "P") {
            Ok(BoardPair::Paired)
        } else if text_is(s, "T") {
            Ok(BoardPair::Trips)
        } else {
            proof {
                reveal_strlit("pair");
            }
            Err(ParseError::str("pair", s))
        }
    }
}

impl Connection {
    /// The value that a code names, if any.
    pub open spec fn from_code(t: Seq<char>) -> Option<Connection> {
        if t == "DC"@ {
            Some(Connection::Disconnected)
        } else if t == "GS"@ {
            Some(Connection::Gutshot)
        } else if t == "OESD"@ {
            Some(Connection::OESD)
        } else if t == "WH"@ {
            Some(Connection::Wheel)
        } else if t == "NS"@ {
            Some(Connection::NormalStraight)
        } else if t == "AS"@ {
            Some(Connection::AnyStraight)
        } else {
            None
        }
    }

    pub open spec fn code(self) -> Seq<char> {
        match self {
            Connection::Disconnected => "DC"@,
            Connection::Gutshot => "GS"@,
            Connection::OESD => "OESD"@,
            Connection::Wheel => "WH"@,
            Connection::NormalStraight => "NS"@,
            Connection::AnyStraight => "AS"@,
        }
    }

    /// Reads a connection from its code: `DC`, `GS`, `OESD`, `WH`, `NS` or `AS`.
    pub fn parse(s: &str) -> (r: Result<Connection, ParseError>)
        ensures
            r matches Ok(x) ==> Connection::from_code(s@) == Some(x),
            r is Err <==> Connection::from_code(s@) is None,
            r matches Ok(c) ==> s@ == c.code(),
            r matches Err(e) ==> (forall|c: Connection| s@ != c.code()) && e.kind@ == "connection"@
                && e.input@ == s@,
    {
        if text_is(s, "DC") {
            Ok(Connection::Disconnected)
        } else if text_is(s, "GS") {
            Ok(Connection::Gutshot)
        } else if text_is(s, "OESD") {
            Ok(Connection::OESD)
        } else if text_is(s, "WH") {
            Ok(Connection::Wheel)
        } else if text_is(s, "NS") {
            Ok(Connection::NormalStraight)
        } else if text_is(s, "AS") {
            Ok(Connection::AnyStraight)
        } else {
            proof {
                reveal_strlit("connection");
            }
            Err(ParseError::str("connection", s))
        }
    }
}

// ---------------------------------------------------------------------------
// The classifiers.

impl Board {
    pub fn is_3bw(&self) -> (r: bool)
        requires
            self.wf(),
        ensures
            r == has_height(self.cards@, BoardHeight::TripleBW),
    {
        self.num_rank_height(&RankHeight::Broadway) == 3
    }

    pub fn is_2bw(&self) -> (r: bool)
        requires
            self.wf(),
        ensures
            r == has_height(self.cards@, BoardHeight::DoubleBW),
    {
        self.num_rank_height(&RankHeight::Broadway) == 2
    }

    pub fn is_1bw(&self) -> (r: bool)
        requires
            self.wf(),
        ensures
            r == has_height(self.cards@, BoardHeight::SingleBW),
    {
        self.num_rank_height(&RankHeight::Broadway) == 1
    }

    pub fn is_middling(&self) -> (r: bool)
        requires
            self.wf(),
        ensures
            r == has_height(self.cards@, BoardHeight::Middling),
    {
        self.num_rank_height(&RankHeight::Broadway) == 0 && self.num_rank_height(
            &RankHeight::Middling,
        ) > 0
    }

    pub fn is_low(&self) -> (r: bool)
        requires
            self.wf(),
        ensures
            r == has_height(self.cards@, BoardHeight::Low),
    {
        self.num_rank_height(&RankHeight::Low) == 3
    }

    pub fn is_height(&self, height: &BoardHeight) -> (r: bool)
        requires
            self.wf(),
        ensures
            r == has_height(self.cards@, *height),
    {
        match height {
            BoardHeight::TripleBW => self.is_3bw(),
            BoardHeight::DoubleBW => self.is_2bw(),
            BoardHeight::SingleBW => self.is_1bw(),
            BoardHeight::Middling => self.is_middling(),
            BoardHeight::Low => self.is_low(),
        }
    }

    /// The one height that the board has.
    pub fn height(&self) -> (r: BoardHeight)
        requires
            self.wf(),
        ensures
            r == height_of(self.cards@),
            has_height(self.cards@, r),
    {
        proof {
            lemma_height_exclusive(*self);
        }
        let bw = self.num_rank_height(&RankHeight::Broadway);
        if bw == 3 {
            BoardHeight::TripleBW
        } else if bw == 2 {
            BoardHeight::DoubleBW
        } else if bw == 1 {
            BoardHeight::SingleBW
        } else if self.num_rank_height(&RankHeight::Middling) > 0 {
            BoardHeight::Middling
        } else {
            BoardHeight::Low
        }
    }

    pub fn is_rainbow(&self) -> (r: bool)
        requires
            self.wf(),
        ensures
            r == (suit_of(self.cards@) == BoardSuit::Rainbow),
    {
        self.num_unique_suits() == 3
    }

    pub fn is_twotone(&self) -> (r: bool)
        requires
            self.wf(),
        ensures
            r == (suit_of(self.cards@) == BoardSuit::Twotone),
    {
        self.num_unique_suits() == 2
    }

    pub fn is_monotone(&self) -> (r: bool)
        requires
            self.wf(),
        ensures
            r == (suit_of(self.cards@) == BoardSuit::Montone),
    {
        self.num_unique_suits() == 1
    }

    pub fn is_suit(&self, suit: &BoardSuit) -> (r: bool)
        requires
            self.wf(),
        ensures
            r == (suit_of(self.cards@) == *suit),
    {
        match suit {
            BoardSuit::Rainbow => self.is_rainbow(),
            BoardSuit::Twotone => self.is_twotone(),
            BoardSuit::Montone => self.is_monotone(),
        }
    }

    /// The suit pattern of the board.
    pub fn suit_pattern(&self) -> (r: BoardSuit)
        requires
            self.wf(),
        ensures
            r == suit_of(self.cards@),
    {
        let u = self.num_unique_suits();
        if u == 1 {
            BoardSuit::Montone
        } else if u == 2 {
            BoardSuit::Twotone
        } else {
            BoardSuit::Rainbow
        }
    }

    pub fn is_unpaired(&self) -> (r: bool)
        requires
            self.wf(),
        ensures
            r == (pair_of(self.cards@) == BoardPair::Unpaired),
    {
        self.num_unique_ranks() == 3
    }

    /// Same as `is_unpaired`.
    pub fn is_not_paired(&self) -> (r: bool)
        requires
            self.wf(),
        ensures
            r == (pair_of(self.cards@) == BoardPair::Unpaired),
    {
        self.is_unpaired()
    }

    pub fn is_paired(&self) -> (r: bool)
        requires
            self.wf(),
        ensures
            r == (pair_of(self.cards@) == BoardPair::Paired),
    {
        self.num_unique_ranks() == 2
    }

    pub fn is_trips(&self) -> (r: bool)
        requires
            self.wf(),
        ensures
            r == (pair_of(self.cards@) == BoardPair::Trips),
    {
        self.num_unique_ranks() == 1
    }

    pub fn is_pair(&self, pair: &BoardPair) -> (r: bool)
        requires
            self.wf(),
        ensures
            r == (pair_of(self.cards@) == *pair),
    {
        match pair {
            BoardPair::Unpaired => self.is_unpaired(),
            BoardPair::Paired => self.is_paired(),
            BoardPair::Trips => self.is_trips(),
        }
    }

    /// The pairing of the board.
    pub fn pairing(&self) -> (r: BoardPair)
        requires
            self.wf(),
        ensures
            r == pair_of(self.cards@),
    {
        let u = self.num_unique_ranks();
        if u == 1 {
            BoardPair::Trips
        } else if u == 2 {
            BoardPair::Paired
        } else {
            BoardPair::Unpaired
        }
    }

    /// Three distinct ranks within a span of four, such as T-9-8 or 9-7-6.
    pub fn is_normal_straight_possible(&self) -> (r: bool)
        requires
            self.wf(),
        ensures
            r == normal_straight(self.cards@),
    {
        let a = self.cards[0].rank.ordinal();
        let b = self.cards[1].rank.ordinal();
        let c = self.cards[2].rank.ordinal();
        a < b && b < c && c - a <= 4
    }

    /// All three cards are among A, 2, 3, 4, 5.
    pub fn is_wheel_possible(&self) -> (r: bool)
        requires
            self.wf(),
        ensures
            r == wheel(self.cards@),
    {
        self.num_rank_height(&RankHeight::Wheel) == 3
    }

    pub fn is_any_straight_possible(&self) -> (r: bool)
        requires
            self.wf(),
        ensures
            r == any_straight(self.cards@),
    {
        self.is_normal_straight_possible() || self.is_wheel_possible()
    }

    /// No straight, but a gap of one to three between adjacent cards other than aces.
    pub fn is_only_oesd_possible(&self) -> (r: bool)
        requires
            self.wf(),
        ensures
            r == only_oesd(self.cards@),
    {
        if self.is_any_straight_possible() {
            return false;
        }
        let a = self.cards[0].rank.ordinal();
        let b = self.cards[1].rank.ordinal();
        let c = self.cards[2].rank.ordinal();
        (!self.cards[1].is_ace() && 1 <= b - a && b - a <= 3) || (!self.cards[2].is_ace() && 1
            <= c - b && c - b <= 3)
    }

    /// Smallest rank distance between adjacent cards.
    pub fn min_distance(&self) -> (r: i32)
        requires
            self.wf(),
        ensures
            r == min_distance(self.cards@),
    {
        let a = self.cards[0].rank.ordinal();
        let b = self.cards[1].rank.ordinal();
        let c = self.cards[2].rank.ordinal();
        if b - a <= c - b {
            b - a
        } else {
            c - b
        }
    }

    /// Neither a straight nor an open-ended draw, but two adjacent cards at most four apart.
    pub fn is_only_gutshot_possible(&self) -> (r: bool)
        requires
            self.wf(),
        ensures
            r == only_gutshot(self.cards@),
    {
        if self.is_any_straight_possible() || self.is_only_oesd_possible() {
            return false;
        }
        self.min_distance() <= 4
    }

    /// No ace on top and every adjacent distance above four.
    pub fn is_disconnected(&self) -> (r: bool)
        requires
            self.wf(),
        ensures
            r == disconnected(self.cards@),
    {
        if self.get_highest_card().is_ace() {
            return false;
        }
        self.min_distance() > 4
    }

    pub fn is_connection(&self, connection: &Connection) -> (r: bool)
        requires
            self.wf(),
        ensures
            r == has_connection(self.cards@, *connection),
    {
        match connection {
            Connection::Disconnected => self.is_disconnected(),
            Connection::Gutshot => self.is_only_gutshot_possible(),
            Connection::OESD => self.is_only_oesd_possible(),
            Connection::Wheel => self.is_wheel_possible(),
            Connection::NormalStraight => self.is_normal_straight_possible(),
            Connection::AnyStraight => self.is_any_straight_possible(),
        }
    }
}

// ---------------------------------------------------------------------------
// Laws of the classification.

pub open spec fn b2i(b: bool) -> int {
    if b { 1 } else { 0 }
}

/// Every board has exactly one of the five heights, and it is the one `height` gives.
pub proof fn lemma_height_exclusive(b: Board)
    requires
        b.wf(),
    ensures
        b2i(has_height(b.cards@, BoardHeight::TripleBW)) + b2i(has_height(b.cards@, BoardHeight::DoubleBW))
            + b2i(has_height(b.cards@, BoardHeight::SingleBW)) + b2i(has_height(b.cards@, BoardHeight::Middling))
            + b2i(has_height(b.cards@, BoardHeight::Low)) == 1,
        forall|h: BoardHeight| has_height(b.cards@, h) <==> h == height_of(b.cards@),
{
    let cs = b.cards@;
    assert forall|h: BoardHeight| has_height(cs, h) <==> h == height_of(cs) by {
        match h {
            BoardHeight::TripleBW => {},
            BoardHeight::DoubleBW => {},
            BoardHeight::SingleBW => {},
            BoardHeight::Middling => {},
            BoardHeight::Low => {},
        }
    }
}

/// Every board has exactly one of the three suit patterns.
pub proof fn lemma_suit_exclusive(b: Board)
    requires
        b.wf(),
    ensures
        b2i(suit_of(b.cards@) == BoardSuit::Rainbow) + b2i(suit_of(b.cards@) == BoardSuit::Twotone)
            + b2i(suit_of(b.cards@) == BoardSuit::Montone) == 1,
        unique_suits(b.cards@) == 1 <==> suit_of(b.cards@) == BoardSuit::Montone,
        unique_suits(b.cards@) == 2 <==> suit_of(b.cards@) == BoardSuit::Twotone,
        unique_suits(b.cards@) == 3 <==> suit_of(b.cards@) == BoardSuit::Rainbow,
{
}

/// Every board has exactly one of the three pairings.
pub proof fn lemma_pair_exclusive(b: Board)
    requires
        b.wf(),
    ensures
        b2i(pair_of(b.cards@) == BoardPair::Unpaired) + b2i(pair_of(b.cards@) == BoardPair::Paired)
            + b2i(pair_of(b.cards@) == BoardPair::Trips) == 1,
        unique_ranks(b.cards@) == 1 <==> pair_of(b.cards@) == BoardPair::Trips,
        unique_ranks(b.cards@) == 2 <==> pair_of(b.cards@) == BoardPair::Paired,
        unique_ranks(b.cards@) == 3 <==> pair_of(b.cards@) == BoardPair::Unpaired,
{
}

/// Any straight, only an open-ended draw, only a gutshot and disconnected exclude one
/// another; and every board has one of them unless its top card is an ace and every
/// adjacent distance, and every gap between cards other than aces, exceeds the draw ranges.
pub proof fn lemma_connection_exclusive(b: Board)
    requires
        b.wf(),
    ensures
        b2i(any_straight(b.cards@)) + b2i(only_oesd(b.cards@)) + b2i(only_gutshot(b.cards@)) + b2i(
            disconnected(b.cards@),
        ) <= 1,
        b.cards@[2].rank != Rank::A ==> b2i(any_straight(b.cards@)) + b2i(only_oesd(b.cards@))
            + b2i(only_gutshot(b.cards@)) + b2i(disconnected(b.cards@)) == 1,
        b.cards@[2].rank == Rank::A ==> (b2i(any_straight(b.cards@)) + b2i(only_oesd(b.cards@))
            + b2i(only_gutshot(b.cards@)) == 1 <==> min_distance(b.cards@) <= 4 || any_straight(
            b.cards@,
        ) || only_oesd(b.cards@)),
        b.cards@[2].rank == Rank::A ==> !disconnected(b.cards@),
{
}

} // verus!
