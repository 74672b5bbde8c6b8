use vstd::prelude::*;

use crate::error::ParseError;
use crate::text::text_is;

verus! {

/// Bet size as a percentage of the pot.
#[derive(Clone, Copy, Debug, PartialEq, Eq, Structural, Hash)]
pub enum Betsize {
    Size33,
    Size50,
    Size75,
    Size150,
}

/// A betting action.
#[derive(Clone, Copy, Debug, PartialEq, Eq, Structural, Hash)]
pub enum Action {
    Check,
    Bet,
    Call,
    Raise,
    Fold,
}

/// A seat at a six-handed table.
#[derive(Clone, Copy, Debug, PartialEq, Eq, Structural, Hash)]
pub enum Position {
    LJ,
    HJ,
    CO,
    BTN,
    SB,
    BB,
}

/// The two players of a situation: in position and out of position.
#[derive(Clone, Copy, Debug, PartialEq, Eq, Structural, Hash)]
pub struct Positions {
    pub ip: Position,
    pub oop: Position,
}

impl Betsize {
    /// The value that a code names, if any.
    pub open spec fn from_code(t: Seq<char>) -> Option<Betsize> {
        if t == "33"@ {
            Some(Betsize::Size33)
        } else if t == "50"@ {
            Some(Betsize::Size50)
        } else if t == "75"@ {
            Some(Betsize::Size75)
        } else if t == "150"@ {
            Some(Betsize::Size150)
        } else {
            None
        }
    }

    pub open spec fn code(self) -> Seq<char> {
        match self {
            Betsize::Size33 => "33"@,
            Betsize::Size50 => "50"@,
            Betsize::Size75 => "75"@,
            Betsize::Size150 => "150"@,
        }
    }

    /// Reads a bet size from its code: `33`, `50`, `75` or `150`.
    pub fn from_str(s: &str) -> (r: Result<Betsize, ParseError>)
        ensures
            r matches Ok(x) ==> Betsize::from_code(s@) == Some(x),
            r is Err <==> Betsize::from_code(s@) is None,
            r matches Ok(b) ==> s@ == b.code(),
            r matches Err(e) ==> (forall|b: Betsize| s@ != b.code()) && e.kind@ == "betsize"@
                && e.input@ == s@,
    {
        if text_is(s, "33") {
            Ok(Betsize::Size33)
        } else if text_is(s, "50") {
            Ok(Betsize::Size50)
        } else if text_is(s, "75") {
            Ok(Betsize::Size75)
        } else if text_is(s, "150") {
            Ok(Betsize::Size150)
        } else {
            proof {
                reveal_strlit("betsize");
            }
            Err(ParseError::str("betsize", s))
        }
    }

    /// The code of the bet size.
    pub fn to_string(&self) -> (r: String)
        ensures
            r@ == self.code(),
    {
        let s = match self {
            Betsize::Size33 => "33",
            Betsize::Size50 => "50",
            Betsize::Size75 => "75",
            Betsize::Size150 => "150",
        };
        s.to_string()
    }
}

impl Action {
    /// The value that a code names, if any.
    pub open spec fn from_code(t: Seq<char>) -> Option<Action> {
        if t == "X"@ {
            Some(Action::Check)
        } else if t == "B"@ {
            Some(Action::Bet)
        } else if t == "C"@ {
            Some(Action::Call)
        } else if t == "R"@ {
            Some(Action::Raise)
        } else if t == "F"@ {
            Some(Action::Fold)
        } else {
            None
        }
    }

    pub open spec fn code(self) -> Seq<char> {
        match self {
            Action::Check => "X"@,
            Action::Bet => "B"@,
            Action::Call => "C"@,
            Action::Raise => "R"@,
            Action::Fold => "F"@,
        }
    }

    pub open spec fn long_name(self) -> Seq<char> {
        match self {
            Action::Check => "check"@,
            Action::Bet => "bet"@,
            Action::Call => "call"@,
            Action::Raise => "raise"@,
            Action::Fold => "fold"@,
        }
    }

    /// Reads an action from its code: `X`, `B`, `C`, `R` or `F`.
    pub fn from_str(s: &str) -> (r: Result<Action, ParseError>)
        ensures
            r matches Ok(x) ==> Action::from_code(s@) == Some(x),
            r is Err <==> Action::from_code(s@) is None,
            r matches Ok(a) ==> s@ == a.code(),
            r matches Err(e) ==> (forall|a: Action| s@ != a.code()) && e.kind@ == "action"@
                && e.input@ == s@,
    {
        if text_is(s, "X") {
            Ok(Action::Check)
        } else if text_is(s, "B") {
            Ok(Action::Bet)
        } else if text_is(s, "C") {
            Ok(Action::Call)
        } else if text_is(s, "R") {
            Ok(Action::Raise)
        } else if text_is(s, "F") {
            Ok(Action::Fold)
        } else {
            proof {
                reveal_strlit("action");
            }
            Err(ParseError::str("action", s))
        }
    }

    /// The code of the action.
    pub fn to_string(&self) -> (r: String)
        ensures
            r@ == self.code(),
    {
        let s = match self {
            Action::Check => "X",
            Action::Bet => "B",
            Action::Call => "C",
            Action::Raise => "R",
            Action::Fold => "F",
        };
        s.to_string()
    }

    /// The action's name in lower case, as solver output files are named.
    pub fn to_long_string(&self) -> (r: String)
        ensures
            r@ == self.long_name(),
    {
        let s = match self {
            Action::Check => "check",
            Action::Bet => "bet",
            Action::Call => "call",
            Action::Raise => "raise",
            Action::Fold => "fold",
        };
        s.to_string()
    }
}

impl Position {
    /// The value that a code names, if any.
    pub open spec fn from_code(t: Seq<char>) -> Option<Position> {
        if t == "LJ"@ {
            Some(Position::LJ)
        } else if t == "HJ"@ {
            Some(Position::HJ)
        } else if t == "CO"@ {
            Some(Position::CO)
        } else if t == "BTN"@ {
            Some(Position::BTN)
        } else if t == "SB"@ {
            Some(Position::SB)
        } else if t == "BB"@ {
            Some(Position::BB)
        } else {
            None
        }
    }

    pub open spec fn code(self) -> Seq<char> {
        match self {
            Position::LJ => "LJ"@,
            Position::HJ => "HJ"@,
            Position::CO => "CO"@,
            Position::BTN => "BTN"@,
            Position::SB => "SB"@,
            Position::BB => "BB"@,
        }
    }

    /// Reads a position from its code: `LJ`, `HJ`, `CO`, `BTN`, `SB` or `BB`.
    pub fn from_str(s: &str) -> (r: Result<Position, ParseError>)
        ensures
            r matches Ok(x) ==> Position::from_code(s@) == Some(x),
            r is Err <==> Position::from_code(s@) is None,
            r matches Ok(p) ==> s@ == p.code(),
            r matches Err(e) ==> (forall|p: Position| s@ != p.code()) && e.kind@ == "position"@
                && e.input@ == s@,
    {
        if text_is(s, "LJ") {
            Ok(Position::LJ)
        } else if text_is(s, "HJ") {
            Ok(Position::HJ)
        } else if text_is(s, "CO") {
            Ok(Position::CO)
        } else if text_is(s, "BTN") {
            Ok(Position::BTN)
        } else if text_is(s, "SB") {
            Ok(Position::SB)
        } else if text_is(s, "BB") {
            Ok(Position::BB)
        } else {
            proof {
                reveal_strlit("position");
            }
            Err(ParseError::str("position", s))
        }
    }

    /// The code of the position.
    pub fn to_string(&self) -> (r: String)
        ensures
            r@ == self.code(),
    {
        let s = match self {
            Position::LJ => "LJ",
            Position::HJ => "HJ",
            Position::CO => "CO",
            Position::BTN => "BTN",
            Position::SB => "SB",
            Position::BB => "BB",
        };
        s.to_string()
    }
}

} // verus!
