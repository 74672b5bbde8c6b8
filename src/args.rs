use vstd::prelude::*;

use crate::calculation::Args;
use crate::error::ParseError;
use crate::fields::texts;
use crate::situation::{Action, Betsize, Position, Positions};
use crate::text::text_is;
use crate::texture::{BoardHeight, BoardPair, BoardSuit, Connection};

verus! {

/// Which list the values that follow a flag go to.
#[derive(Clone, Copy, Debug, PartialEq, Eq, Structural)]
pub enum ArgMode {
    Idle,
    Positions,
    Betsizes,
    Heights,
    Suits,
    Connections,
    Pair,
}

/// The flag that a token is, if any: `-PO`, `-B`, `-H`, `-S`, `-C` or `-PA`.
pub open spec fn flag_mode(t: Seq<char>) -> Option<ArgMode> {
    if t == "-PO"@ {
        Some(ArgMode::Positions)
    } else if t == "-B"@ {
        Some(ArgMode::Betsizes)
    } else if t == "-H"@ {
        Some(ArgMode::Heights)
    } else if t == "-S"@ {
        Some(ArgMode::Suits)
    } else if t == "-C"@ {
        Some(ArgMode::Connections)
    } else if t == "-PA"@ {
        Some(ArgMode::Pair)
    } else {
        None
    }
}

/// What has been read so far: the current flag and the values of each list.
pub struct ArgScan {
    pub mode: ArgMode,
    pub positions: Seq<Position>,
    pub betsizes: Seq<Betsize>,
    pub heights: Seq<BoardHeight>,
    pub suits: Seq<BoardSuit>,
    pub connections: Seq<Connection>,
    pub pair: Seq<BoardPair>,
}

pub open spec fn empty_scan() -> ArgScan {
    ArgScan {
        mode: ArgMode::Idle,
        positions: Seq::empty(),
        betsizes: Seq::empty(),
        heights: Seq::empty(),
        suits: Seq::empty(),
        connections: Seq::empty(),
        pair: Seq::empty(),
    }
}

/// Reading one more token: a flag switches the list, any other token is a value of the
/// current list and must be one of its codes.
pub open spec fn scan_step(st: ArgScan, t: Seq<char>) -> Option<ArgScan> {
    match flag_mode(t) {
        Some(m) => Some(ArgScan { mode: m, ..st }),
        None => match st.mode {
            ArgMode::Idle => None,
            ArgMode::Positions => match Position::from_code(t) {
                Some(p) => Some(ArgScan { positions: st.positions.push(p), ..st }),
                None => None,
            },
            ArgMode::Betsizes => match Betsize::from_code(t) {
                Some(b) => Some(ArgScan { betsizes: st.betsizes.push(b), ..st }),
                None => None,
            },
            ArgMode::Heights => match BoardHeight::from_code(t) {
                Some(h) => Some(ArgScan { heights: st.heights.push(h), ..st }),
                None => None,
            },
            ArgMode::Suits => match BoardSuit::from_code(t) {
                Some(s) => Some(ArgScan { suits: st.suits.push(s), ..st }),
                None => None,
            },
            ArgMode::Connections => match Connection::from_code(t) {
                Some(c) => Some(ArgScan { connections: st.connections.push(c), ..st }),
                None => None,
            },
            ArgMode::Pair => match BoardPair::from_code(t) {
                Some(p) => Some(ArgScan { pair: st.pair.push(p), ..st }),
                None => None,
            },
        },
    }
}

/// Reading all tokens, left to right.
pub open spec fn scan(toks: Seq<Seq<char>>) -> Option<ArgScan>
    decreases toks.len(),
{
    if toks.len() == 0 {
        Some(empty_scan())
    } else {
        match scan(toks.drop_last()) {
            Some(st) => scan_step(st, toks.last()),
            None => None,
        }
    }
}

/// The request that upper-case tokens give: exactly two positions (in position first),
/// the lists as read, and a check as the only action.
pub open spec fn args_match_scan(a: Args, st: ArgScan) -> bool {
    &&& st.positions.len() == 2
    &&& a.positions == Positions { ip: st.positions[0], oop: st.positions[1] }
    &&& a.betsizes@ == st.betsizes
    &&& a.heights@ == st.heights
    &&& a.suits@ == st.suits
    &&& a.connections@ == st.connections
    &&& a.pair@ == st.pair
    &&& a.actions@ == seq![Action::Check]
}

/// Reads a request from command-line tokens that are already in upper case.
///
/// Fails on a value before any flag, on a value that is no code of its list, and when
/// the positions are not exactly two.
pub fn parse_upper_args(tokens: &Vec<String>) -> (r: Result<Args, ParseError>)
    ensures
        r is Ok <==> (scan(texts(tokens@)) matches Some(st) && st.positions.len() == 2),
        r matches Ok(a) ==> args_match_scan(a, scan(texts(tokens@))->0),
{
    let ghost toks = texts(tokens@);
    let mut mode = ArgMode::Idle;
    let mut positions: Vec<Position> = Vec::new();
    let mut betsizes: Vec<Betsize> = Vec::new();
    let mut heights: Vec<BoardHeight> = Vec::new();
    let mut suits: Vec<BoardSuit> = Vec::new();
    let mut connections: Vec<Connection> = Vec::new();
    let mut pair: Vec<BoardPair> = Vec::new();
    let mut i: usize = 0;
    proof {
        assert(toks.subrange(0, 0) =~= Seq::<Seq<char>>::empty());
    }
    while i < tokens.len()
        invariant
            toks == texts(tokens@),
            i <= tokens@.len(),
            scan(toks.subrange(0, i as int)) == Some(
                ArgScan {
                    mode,
                    positions: positions@,
                    betsizes: betsizes@,
                    heights: heights@,
                    suits: suits@,
                    connections: connections@,
                    pair: pair@,
                },
            ),
        decreases tokens@.len() - i,
    {
        let t = tokens[i].as_str();
        proof {
            assert(toks.subrange(0, i + 1).drop_last() =~= toks.subrange(0, i as int));
            assert(toks.subrange(0, i + 1).last() == t@);
        }
        if text_is(t, "-PO") {
            mode = ArgMode::Positions;
        } else if text_is(t, "-B") {
            mode = ArgMode::Betsizes;
        } else if text_is(t, "-H") {
            mode = ArgMode::Heights;
        } else if text_is(t, "-S") {
            mode = ArgMode::Suits;
        } else if text_is(t, "-C") {
            mode = ArgMode::Connections;
        } else if text_is(t, "-PA") {
            mode = ArgMode::Pair;
        } else {
            match mode {
                ArgMode::Idle => {
                    proof {
                        lemma_scan_fails_after(toks, i as int);
                        reveal_strlit("argument");
                    }
                    return Err(ParseError::str("argument", t));
                },
                ArgMode::Positions => match Position::from_str(t) {
                    Ok(p) => positions.push(p),
                    Err(e) => {
                        proof {
                            lemma_scan_fails_after(toks, i as int);
                        }
                        return Err(e);
                    },
                },
                ArgMode::Betsizes => match Betsize::from_str(t) {
                    Ok(b) => betsizes.push(b),
                    Err(e) => {
                        proof {
                            lemma_scan_fails_after(toks, i as int);
                        }
                        return Err(e);
                    },
                },
                ArgMode::Heights => match BoardHeight::parse(t) {
                    Ok(h) => heights.push(h),
                    Err(e) => {
                        proof {
                            lemma_scan_fails_after(toks, i as int);
                        }
                        return Err(e);
                    },
                },
                ArgMode::Suits => match BoardSuit::parse(t) {
                    Ok(s) => suits.push(s),
                    Err(e) => {
                        proof {
                            lemma_scan_fails_after(toks, i as int);
                        }
                        return Err(e);
                    },
                },
                ArgMode::Connections => match Connection::parse(t) {
                    Ok(c) => connections.push(c),
                    Err(e) => {
                        proof {
                            lemma_scan_fails_after(toks, i as int);
                        }
                        return Err(e);
                    },
                },
                ArgMode::Pair => match BoardPair::from_str(t) {
                    Ok(p) => pair.push(p),
                    Err(e) => {
                        proof {
                            lemma_scan_fails_after(toks, i as int);
                        }
                        return Err(e);
                    },
                },
            }
        }
        i = i + 1;
    }
    proof {
        assert(toks.subrange(0, tokens@.len() as int) =~= toks);
    }
    if positions.len() != 2 {
        proof {
            reveal_strlit("positions");
        }
        return Err(ParseError::str("positions", ""));
    }
    let ip = positions[0];
    let oop = positions[1];
    let actions = vec![Action::Check];
    assert(actions@ =~= seq![Action::Check]);
    Ok(Args { positions: Positions { ip, oop }, betsizes, heights, suits, connections, pair, actions })
}

/// Once a token cannot be read, no longer list of tokens can be read either.
proof fn lemma_scan_fails_after(toks: Seq<Seq<char>>, i: int)
    requires
        0 <= i < toks.len(),
        scan(toks.subrange(0, i + 1)) is None,
    ensures
        scan(toks) is None,
    decreases toks.len() - i,
{
    if i + 1 < toks.len() {
        assert(toks.subrange(0, i + 2).drop_last() =~= toks.subrange(0, i + 1));
        lemma_scan_fails_after(toks, i + 1);
    } else {
        assert(toks.subrange(0, i + 1) =~= toks);
    }
}

/// What `str::to_uppercase` makes of a text.
pub uninterp spec fn upper_of(s: Seq<char>) -> Seq<char>;

/// Relies on `str::to_uppercase`: the result depends on the characters alone.
#[verifier::external_body]
fn uppercase(s: &str) -> (r: String)
    ensures
        r@ == upper_of(s@),
{
    s.to_uppercase()
}

pub open spec fn upper_texts(v: Seq<String>) -> Seq<Seq<char>> {
    v.map_values(|x: String| upper_of(x@))
}

/// Reads a request from command-line tokens, in any case: flags `-po`, `-b`, `-h`, `-s`,
/// `-c` and `-pa` each followed by codes of positions, bet sizes, heights, suit patterns,
/// connections and pairings.
pub fn parse_args(tokens: &Vec<String>) -> (r: Result<Args, ParseError>)
    ensures
        r is Ok <==> (scan(upper_texts(tokens@)) matches Some(st) && st.positions.len() == 2),
        r matches Ok(a) ==> args_match_scan(a, scan(upper_texts(tokens@))->0),
{
    let mut upper: Vec<String> = Vec::new();
    let mut i: usize = 0;
    while i < tokens.len()
        invariant
            i <= tokens@.len(),
            texts(upper@) == upper_texts(tokens@).subrange(0, i as int),
        decreases tokens@.len() - i,
    {
        let u = uppercase(tokens[i].as_str());
        let ghost before = texts(upper@);
        upper.push(u);
        proof {
            assert(texts(upper@) =~= before.push(u@));
            assert(upper_texts(tokens@).subrange(0, i + 1) =~= upper_texts(tokens@).subrange(0, i as int).push(
                upper_of(tokens@[i as int]@),
            ));
        }
        i = i + 1;
    }
    proof {
        assert(upper_texts(tokens@).subrange(0, tokens@.len() as int) =~= upper_texts(tokens@));
    }
    parse_upper_args(&upper)
}

} // verus!
