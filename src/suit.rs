use vstd::prelude::*;

use crate::error::ParseError;

verus! {

/// The four suits. They carry no order.
#[derive(Clone, Copy, Debug, PartialEq, Eq, Structural, Hash)]
pub enum Suit {
    Spade,
    Club,
    Diamond,
    Heart,
}

impl Suit {
    /// The lower-case character that codes the suit.
    pub open spec fn code(self) -> char {
        match self {
            Suit::Spade => 's',
            Suit::Club => 'c',
            Suit::Diamond => 'd',
            Suit::Heart => 'h',
        }
    }

    /// The suit that a character codes, if any.
    pub open spec fn from_code(c: char) -> Option<Suit> {
        if c == 's' {
            Some(Suit::Spade)
        } else if c == 'c' {
            Some(Suit::Club)
        } else if c == 'd' {
            Some(Suit::Diamond)
        } else if c == 'h' {
            Some(Suit::Heart)
        } else {
            None
        }
    }

    /// Reads a suit from its character.
    pub fn parse(c: char) -> (r: Result<Suit, ParseError>)
        ensures
            r matches Ok(suit) ==> Suit::from_code(c) == Some(suit),
            r matches Err(e) ==> Suit::from_code(c).is_none() && e.kind@ == "suit"@ && e.input@ == seq![c],
            r.is_ok() <==> Suit::from_code(c).is_some(),
    {
        match c {
            's' => Ok(Suit::Spade),
            'c' => Ok(Suit::Club),
            'd' => Ok(Suit::Diamond),
            'h' => Ok(Suit::Heart),
            _ => {
                let e = ParseError::char("suit", c);
                proof {
                    reveal_strlit("suit");
                }
                Err(e)
            },
        }
    }

    /// The character that codes the suit.
    pub fn to_char(&self) -> (c: char)
        ensures
            c == self.code(),
    {
        match self {
            Suit::Spade => 's',
            Suit::Club => 'c',
            Suit::Diamond => 'd',
            Suit::Heart => 'h',
        }
    }
}

impl TryFrom<char> for Suit {
    type Error = ParseError;

    /// Same as `Suit::parse`, whose contract states the result.
    fn try_from(c: char) -> Result<Suit, ParseError> {
        Suit::parse(c)
    }
}

impl vstd::std_specs::convert::TryFromSpecImpl<char> for Suit {
    open spec fn obeys_try_from_spec() -> bool {
        false
    }

    open spec fn try_from_spec(c: char) -> Result<Suit, ParseError> {
        arbitrary()
    }
}

} // verus!
