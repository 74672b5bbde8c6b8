use vstd::prelude::*;

use crate::fields::{split_on, split_spec, texts};
use crate::situation::{Action, Betsize, Positions};
use crate::text::text_is;

verus! {

// How solver output is laid out on disk, by name: a directory per pair of positions, in it
// a directory per bet size, in it a file per action sequence.

/// `t` occurs in `s` at some position.
pub open spec fn occurs_in(s: Seq<char>, t: Seq<char>) -> bool {
    exists|i: int| 0 <= i && i + t.len() <= s.len() && #[trigger] s.subrange(i, i + t.len()) == t
}

/// Whether `t` occurs in `s`.
pub fn text_contains(s: &str, t: &str) -> (r: bool)
    ensures
        r == occurs_in(s@, t@),
{
    let n = s.unicode_len();
    let m = t.unicode_len();
    if m > n {
        return false;
    }
    let last = n - m;
    let mut i: usize = 0;
    while i < last
        invariant
            n == s@.len(),
            m == t@.len(),
            last == n - m,
            i <= last,
            forall|k: int| 0 <= k < i ==> #[trigger] s@.subrange(k, k + m) != t@,
        decreases last - i,
    {
        let part = s.substring_char(i, i + m);
        if text_is(part, t) {
            proof {
                assert(s@.subrange(i as int, i + t@.len()) == t@);
            }
            return true;
        }
        i = i + 1;
    }
    let part = s.substring_char(last, n);
    let r = text_is(part, t);
    proof {
        if r {
            assert(s@.subrange(last as int, last + t@.len()) == t@);
        }
        if !r {
            assert forall|k: int| 0 <= k && k + m <= n implies #[trigger] s@.subrange(k, k + m) != t@ by {
                if k == last {
                    assert(s@.subrange(k, k + m) == part@);
                }
            }
        }
    }
    r
}

/// Whether a directory name names the situation's two positions: it holds both codes.
pub fn is_positions_dir(name: &str, positions: &Positions) -> (r: bool)
    ensures
        r == (occurs_in(name@, positions.ip.code()) && occurs_in(name@, positions.oop.code())),
{
    let ip = positions.ip.to_string();
    let oop = positions.oop.to_string();
    text_contains(name, ip.as_str()) && text_contains(name, oop.as_str())
}

/// Whether a directory name is the bet size's code.
pub fn is_size_dir(name: &str, betsize: &Betsize) -> (r: bool)
    ensures
        r == (name@ == betsize.code()),
{
    let code = betsize.to_string();
    text_is(name, code.as_str())
}

/// Whether a file name (without extension) is the one of the action sequence: a prefix,
/// then one `_` and the long name of each action in turn.
pub fn file_matches_actions(name: &str, actions: &Vec<Action>) -> (r: bool)
    ensures
        r == (split_spec(name@, '_').len() == actions@.len() + 1 && forall|i: int|
            0 <= i < actions@.len() ==> split_spec(name@, '_')[i + 1] == (
            #[trigger] actions@[i]).long_name()),
{
    let parts = split_on(name, '_');
    let ghost p = split_spec(name@, '_');
    assert(p.len() == parts@.len());
    if parts.len() - 1 != actions.len() {
        return false;
    }
    let mut i: usize = 0;
    while i < actions.len()
        invariant
            texts(parts@) == p,
            p == split_spec(name@, '_'),
            parts@.len() == actions@.len() + 1,
            i <= actions@.len(),
            forall|k: int| 0 <= k < i ==> p[k + 1] == (#[trigger] actions@[k]).long_name(),
        decreases actions@.len() - i,
    {
        let long = actions[i].to_long_string();
        proof {
            assert(p[i + 1] == parts@[i + 1]@);
        }
        if !text_is(parts[i + 1].as_str(), long.as_str()) {
            proof {
                assert(p[i + 1] != actions@[i as int].long_name());
                assert(!(forall|k: int|
                    0 <= k < actions@.len() ==> p[k + 1] == (#[trigger] actions@[k]).long_name()));
            }
            return false;
        }
        i = i + 1;
    }
    true
}

} // verus!
