use vstd::prelude::*;

use crate::error::ParseError;

verus! {

/// A named group of ranks.
#[derive(Clone, Copy, Debug, PartialEq, Eq, Structural, Hash)]
pub enum RankHeight {
    Broadway,
    Middling,
    Low,
    Wheel,
}

/// The thirteen card ranks, from deuce up to ace.
#[derive(Clone, Copy, Debug, PartialEq, Eq, Structural, Hash, PartialOrd, Ord)]
pub enum Rank {
    _2,
    _3,
    _4,
    _5,
    _6,
    _7,
    _8,
    _9,
    T,
    J,
    Q,
    K,
    A,
}

impl Rank {
    /// Position of the rank in the order 2 < 3 < ... < K < A, starting at 0.
    pub open spec fn value(self) -> int {
        match self {
            Rank::_2 => 0,
            Rank::_3 => 1,
            Rank::_4 => 2,
            Rank::_5 => 3,
            Rank::_6 => 4,
            Rank::_7 => 5,
            Rank::_8 => 6,
            Rank::_9 => 7,
            Rank::T => 8,
            Rank::J => 9,
            Rank::Q => 10,
            Rank::K => 11,
            Rank::A => 12,
        }
    }

    /// The character that codes the rank.
    pub open spec fn code(self) -> char {
        match self {
            Rank::_2 => '2',
            Rank::_3 => '3',
            Rank::_4 => '4',
            Rank::_5 => '5',
            Rank::_6 => '6',
            Rank::_7 => '7',
            Rank::_8 => '8',
            Rank::_9 => '9',
            Rank::T => 'T',
            Rank::J => 'J',
            Rank::Q => 'Q',
            Rank::K => 'K',
            Rank::A => 'A',
        }
    }

    /// T, J, Q, K and A.
    pub open spec fn spec_is_bw(self) -> bool {
        8 <= self.value()
    }

    /// 7, 8 and 9.
    pub open spec fn spec_is_middling(self) -> bool {
        5 <= self.value() <= 7
    }

    /// 2 to 6.
    pub open spec fn spec_is_low(self) -> bool {
        self.value() <= 4
    }

    /// A, 2, 3, 4 and 5: the ranks of the lowest straight.
    pub open spec fn spec_is_wheel(self) -> bool {
        self.value() <= 3 || self == Rank::A
    }

    pub open spec fn spec_is_height(self, height: RankHeight) -> bool {
        match height {
            RankHeight::Broadway => self.spec_is_bw(),
            RankHeight::Middling => self.spec_is_middling(),
            RankHeight::Low => self.spec_is_low(),
            RankHeight::Wheel => self.spec_is_wheel(),
        }
    }

    /// The rank that a character codes, if any.
    pub open spec fn from_code(c: char) -> Option<Rank> {
        if c == '2' { Some(Rank::_2) }
        else if c == '3' { Some(Rank::_3) }
        else if c == '4' { Some(Rank::_4) }
        else if c == '5' { Some(Rank::_5) }
        else if c == '6' { Some(Rank::_6) }
        else if c == '7' { Some(Rank::_7) }
        else if c == '8' { Some(Rank::_8) }
        else if c == '9' { Some(Rank::_9) }
        else if c == 'T' { Some(Rank::T) }
        else if c == 'J' { Some(Rank::J) }
        else if c == 'Q' { Some(Rank::Q) }
        else if c == 'K' { Some(Rank::K) }
        else if c == 'A' { Some(Rank::A) }
        else { None }
    }

    /// Reads a rank from its character.
    pub fn parse(c: char) -> (r: Result<Rank, ParseError>)
        ensures
            r matches Ok(rank) ==> Rank::from_code(c) == Some(rank),
            r matches Err(e) ==> Rank::from_code(c).is_none() && e.kind@ == "rank"@ && e.input@ == seq![c],
            r.is_ok() <==> Rank::from_code(c).is_some(),
    {
        match c {
            '2' => Ok(Rank::_2),
            '3' => Ok(Rank::_3),
            '4' => Ok(Rank::_4),
            '5' => Ok(Rank::_5),
            '6' => Ok(Rank::_6),
            '7' => Ok(Rank::_7),
            '8' => Ok(Rank::_8),
            '9' => Ok(Rank::_9),
            'T' => Ok(Rank::T),
            'J' => Ok(Rank::J),
            'Q' => Ok(Rank::Q),
            'K' => Ok(Rank::K),
            'A' => Ok(Rank::A),
            _ => {
                let e = ParseError::char("rank", c);
                proof { reveal_strlit("rank"); }
                Err(e)
            },
        }
    }

    /// The character that codes the rank.
    pub fn to_char(&self) -> (c: char)
        ensures
            c == self.code(),
    {
        match self {
            Rank::_2 => '2',
            Rank::_3 => '3',
            Rank::_4 => '4',
            Rank::_5 => '5',
            Rank::_6 => '6',
            Rank::_7 => '7',
            Rank::_8 => '8',
            Rank::_9 => '9',
            Rank::T => 'T',
            Rank::J => 'J',
            Rank::Q => 'Q',
            Rank::K => 'K',
            Rank::A => 'A',
        }
    }

    /// Position of the rank, 0 for a deuce up to 12 for an ace.
    pub fn ordinal(&self) -> (r: i32)
        ensures
            r == self.value(),
            0 <= r <= 12,
    {
        match self {
            Rank::_2 => 0,
            Rank::_3 => 1,
            Rank::_4 => 2,
            Rank::_5 => 3,
            Rank::_6 => 4,
            Rank::_7 => 5,
            Rank::_8 => 6,
            Rank::_9 => 7,
            Rank::T => 8,
            Rank::J => 9,
            Rank::Q => 10,
            Rank::K => 11,
            Rank::A => 12,
        }
    }

    pub fn is_bw(&self) -> (r: bool)
        ensures
            r == self.spec_is_bw(),
    {
        self.ordinal() >= 8
    }

    pub fn is_middling(&self) -> (r: bool)
        ensures
            r == self.spec_is_middling(),
    {
        let v = self.ordinal();
        5 <= v && v <= 7
    }

    pub fn is_low(&self) -> (r: bool)
        ensures
            r == self.spec_is_low(),
    {
        self.ordinal() <= 4
    }

    pub fn is_wheel(&self) -> (r: bool)
        ensures
            r == self.spec_is_wheel(),
    {
        self.ordinal() <= 3 || *self == Rank::A
    }

    pub fn is_height(&self, height: &RankHeight) -> (r: bool)
        ensures
            r == self.spec_is_height(*height),
    {
        match height {
            RankHeight::Broadway => self.is_bw(),
            RankHeight::Middling => self.is_middling(),
            RankHeight::Low => self.is_low(),
            RankHeight::Wheel => self.is_wheel(),
        }
    }

    /// Every named group the rank belongs to, in the order
    /// broadway, middling, low, wheel.
    pub fn get_heights(&self) -> (r: Vec<RankHeight>)
        ensures
            forall|h: RankHeight| r@.contains(h) <==> self.spec_is_height(h),
            r@.no_duplicates(),
    {
        let r = match self {
            Rank::A => vec![RankHeight::Broadway, RankHeight::Wheel],
            Rank::T | Rank::J | Rank::Q | Rank::K => vec![RankHeight::Broadway],
            Rank::_7 | Rank::_8 | Rank::_9 => vec![RankHeight::Middling],
            Rank::_6 => vec![RankHeight::Low],
            Rank::_2 | Rank::_3 | Rank::_4 | Rank::_5 => vec![RankHeight::Low, RankHeight::Wheel],
        };
        proof {
            assert forall|h: RankHeight| r@.contains(h) <==> self.spec_is_height(h) by {
                if self.spec_is_height(h) {
                    if r@.len() == 2 && r@[1] == h {
                        assert(r@.contains(r@[1]));
                    } else {
                        assert(r@.contains(r@[0]));
                    }
                }
            }
        }
        r
    }

    /// Signed difference of positions: `self.ordinal() - other.ordinal()`.
    pub fn diff(&self, other: &Rank) -> (r: i32)
        ensures
            r == self.value() - other.value(),
    {
        self.ordinal() - other.ordinal()
    }
}

impl TryFrom<char> for Rank {
    type Error = ParseError;

    /// Same as `Rank::parse`, whose contract states the result.
    fn try_from(c: char) -> Result<Rank, ParseError> {
        Rank::parse(c)
    }
}

impl vstd::std_specs::convert::TryFromSpecImpl<char> for Rank {
    open spec fn obeys_try_from_spec() -> bool {
        false
    }

    open spec fn try_from_spec(c: char) -> Result<Rank, ParseError> {
        arbitrary()
    }
}

impl std::ops::Sub for Rank {
    type Output = i32;

    fn sub(self, rhs: Rank) -> i32 {
        self.diff(&rhs)
    }
}

impl vstd::std_specs::ops::SubSpecImpl for Rank {
    open spec fn obeys_sub_spec() -> bool {
        true
    }

    open spec fn sub_req(self, rhs: Rank) -> bool {
        true
    }

    open spec fn sub_spec(self, rhs: Rank) -> i32 {
        (self.value() - rhs.value()) as i32
    }
}

} // verus!
