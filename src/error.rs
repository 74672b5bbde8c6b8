use vstd::prelude::*;

verus! {

/// Failure to read a rank, suit, card, board or some other coded value.
///
/// `kind` names what was being read (`"rank"`, `"suit"`, `"card"`, `"board"`, ...),
/// `input` holds the offending text.
#[derive(Debug)]
pub struct ParseError {
    pub kind: String,
    pub input: String,
}

/// Another name of `ParseError`, for failures to read a board.
pub type BoardParseError = ParseError;

/// The text that `message` gives for an error.
pub open spec fn error_message(kind: Seq<char>, input: Seq<char>) -> Seq<char> {
    "error parsing "@ + kind + " from "@ + input
}

/// Relies on `char::to_string`: the string holds exactly that one character.
#[verifier::external_body]
pub(crate) fn char_text(c: char) -> (r: String)
    ensures
        r@ == seq![c],
{
    c.to_string()
}

impl ParseError {
    /// An error for a single offending character.
    pub fn char(kind: &str, src: char) -> (r: ParseError)
        ensures
            r.kind@ == kind@,
            r.input@ == seq![src],
    {
        ParseError { kind: kind.to_string(), input: char_text(src) }
    }

    /// An error for an offending piece of text.
    pub fn str(kind: &str, src: &str) -> (r: ParseError)
        ensures
            r.kind@ == kind@,
            r.input@ == src@,
    {
        ParseError { kind: kind.to_string(), input: src.to_string() }
    }

    /// A one-line description of the error.
    pub fn message(&self) -> (r: String)
        ensures
            r@ == error_message(self.kind@, self.input@),
    {
        let mut s = String::from_str("error parsing ");
        s.append(self.kind.as_str());
        s.append(" from ");
        s.append(self.input.as_str());
        proof {
            reveal_strlit("error parsing ");
            reveal_strlit(" from ");
        }
        s
    }
}

} // verus!
