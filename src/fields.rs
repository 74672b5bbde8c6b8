use vstd::prelude::*;

verus! {

/// The pieces of a text between occurrences of the separator, read left to right:
/// each separator closes a piece and opens a new, empty one.
pub open spec fn split_spec(s: Seq<char>, sep: char) -> Seq<Seq<char>>
    decreases s.len(),
{
    if s.len() == 0 {
        seq![Seq::empty()]
    } else {
        let p = split_spec(s.drop_last(), sep);
        if s.last() == sep {
            p.push(Seq::empty())
        } else {
            p.update(p.len() - 1, p.last().push(s.last()))
        }
    }
}

/// The characters of each string.
pub open spec fn texts(v: Seq<String>) -> Seq<Seq<char>> {
    v.map_values(|x: String| x@)
}

proof fn lemma_split_spec_len(s: Seq<char>, sep: char)
    ensures
        split_spec(s, sep).len() >= 1,
    decreases s.len(),
{
    if s.len() > 0 {
        lemma_split_spec_len(s.drop_last(), sep);
    }
}

/// Splits a text at every occurrence of the separator.
pub fn split_on(s: &str, sep: char) -> (r: Vec<String>)
    ensures
        texts(r@) == split_spec(s@, sep),
        r@.len() >= 1,
{
    let n = s.unicode_len();
    let mut r: Vec<String> = Vec::new();
    let mut start: usize = 0;
    let mut i: usize = 0;
    proof {
        assert(s@.subrange(0, 0) =~= Seq::<char>::empty());
        assert(texts(r@).push(s@.subrange(0, 0)) =~= split_spec(s@.subrange(0, 0), sep));
    }
    while i < n
        invariant
            n == s@.len(),
            start <= i <= n,
            texts(r@).push(s@.subrange(start as int, i as int)) == split_spec(s@.subrange(0, i as int), sep),
        decreases n - i,
    {
        let c = s.get_char(i);
        let ghost old_r = texts(r@);
        let ghost piece = s@.subrange(start as int, i as int);
        proof {
            assert(s@.subrange(0, i + 1).drop_last() =~= s@.subrange(0, i as int));
            lemma_split_spec_len(s@.subrange(0, i as int), sep);
        }
        if c == sep {
            let p = s.substring_char(start, i).to_string();
            r.push(p);
            proof {
                assert(texts(r@) =~= old_r.push(piece));
                assert(s@.subrange(i + 1, i + 1) =~= Seq::<char>::empty());
            }
            start = i + 1;
        } else {
            proof {
                assert(s@.subrange(start as int, i + 1) =~= piece.push(c));
                assert(old_r.push(piece.push(c)) =~= old_r.push(piece).update(
                    old_r.len() as int,
                    piece.push(c),
                ));
            }
        }
        i = i + 1;
    }
    let last = s.substring_char(start, n).to_string();
    let ghost old_r = texts(r@);
    r.push(last);
    proof {
        assert(texts(r@) =~= old_r.push(s@.subrange(start as int, n as int)));
        assert(s@.subrange(0, n as int) =~= s@);
        lemma_split_spec_len(s@, sep);
    }
    r
}

pub open spec fn is_digit(c: char) -> bool {
    '0' <= c && c <= '9'
}

pub open spec fn digit_value(c: char) -> nat {
    (c as u32 - '0' as u32) as nat
}

pub open spec fn all_digits(s: Seq<char>) -> bool {
    forall|i: int| 0 <= i < s.len() ==> is_digit(#[trigger] s[i])
}

/// The number that a run of decimal digits writes.
pub open spec fn digits_value(s: Seq<char>) -> nat
    decreases s.len(),
{
    if s.len() == 0 {
        0
    } else {
        digits_value(s.drop_last()) * 10 + digit_value(s.last())
    }
}

pub open spec fn pow10(n: nat) -> nat
    decreases n,
{
    if n == 0 {
        1
    } else {
        10 * pow10((n - 1) as nat)
    }
}

/// Index of the first `'.'`, or the length where there is none.
pub open spec fn dot_index(s: Seq<char>) -> int
    decreases s.len(),
{
    if s.len() == 0 {
        0
    } else if s[0] == '.' {
        0
    } else {
        1 + dot_index(s.subrange(1, s.len() as int))
    }
}

/// Millionths that a run of fraction digits writes; digits past the sixth are dropped.
pub open spec fn fraction_micros(f: Seq<char>) -> nat {
    if f.len() <= 6 {
        digits_value(f) * pow10((6 - f.len()) as nat)
    } else {
        digits_value(f.subrange(0, 6))
    }
}

/// Largest number of digits before the point.
pub const MAX_INTEGER_DIGITS: usize = 9;

/// The value, in millionths, of a decimal text: one to nine digits, then optionally a
/// point and at least one more digit. Any other text has none.
pub open spec fn decimal_micros(s: Seq<char>) -> Option<nat> {
    let p = dot_index(s);
    let whole = s.subrange(0, p);
    if p == 0 || p > MAX_INTEGER_DIGITS || !all_digits(whole) {
        None
    } else if p == s.len() {
        Some(digits_value(whole) * 1_000_000)
    } else {
        let f = s.subrange(p + 1, s.len() as int);
        if f.len() == 0 || !all_digits(f) {
            None
        } else {
            Some(digits_value(whole) * 1_000_000 + fraction_micros(f))
        }
    }
}

proof fn lemma_dot_index_unique(s: Seq<char>, p: int)
    requires
        0 <= p <= s.len(),
        p < s.len() ==> s[p] == '.',
        forall|i: int| 0 <= i < p ==> s[i] != '.',
    ensures
        dot_index(s) == p,
    decreases s.len(),
{
    if s.len() > 0 && s[0] != '.' {
        let t = s.subrange(1, s.len() as int);
        lemma_dot_index_unique(t, p - 1);
    }
}

proof fn lemma_digits_value_step(s: Seq<char>, i: int)
    requires
        0 <= i < s.len(),
    ensures
        digits_value(s.subrange(0, i + 1)) == digits_value(s.subrange(0, i)) * 10 + digit_value(
            s[i],
        ),
{
    assert(s.subrange(0, i + 1).drop_last() =~= s.subrange(0, i));
}

proof fn lemma_digits_value_bound(s: Seq<char>)
    requires
        all_digits(s),
    ensures
        digits_value(s) < pow10(s.len()),
    decreases s.len(),
{
    if s.len() > 0 {
        let t = s.drop_last();
        assert(all_digits(t)) by {
            assert forall|i: int| 0 <= i < t.len() implies is_digit(#[trigger] t[i]) by {
                assert(t[i] == s[i]);
            }
        }
        lemma_digits_value_bound(t);
    }
}

/// Reads a run of digits at `s[from..to]`, if all of them are digits.
fn read_digits(s: &str, from: usize, to: usize) -> (r: Option<u64>)
    requires
        from <= to <= s@.len(),
        to - from <= 9,
    ensures
        r is Some <==> all_digits(s@.subrange(from as int, to as int)),
        r matches Some(v) ==> v == digits_value(s@.subrange(from as int, to as int)),
{
    let ghost t = s@.subrange(from as int, to as int);
    let mut v: u64 = 0;
    let mut i: usize = from;
    while i < to
        invariant
            from <= i <= to <= s@.len(),
            to - from <= 9,
            t == s@.subrange(from as int, to as int),
            all_digits(t.subrange(0, i - from)),
            v == digits_value(t.subrange(0, i - from)),
            v < pow10((i - from) as nat),
        decreases to - i,
    {
        let c = s.get_char(i);
        if !('0' <= c && c <= '9') {
            proof {
                assert(t[i - from] == c);
            }
            return None;
        }
        proof {
            lemma_digits_value_step(t, i - from);
            assert(t[i - from] == c);
            assert(pow10((i - from + 1) as nat) == 10 * pow10((i - from) as nat));
            lemma_pow10_values();
            lemma_pow10_mono((i - from + 1) as nat, 9);
            assert(all_digits(t.subrange(0, i + 1 - from))) by {
                assert forall|k: int| 0 <= k < i + 1 - from implies is_digit(
                    #[trigger] t.subrange(0, i + 1 - from)[k],
                ) by {
                    if k < i - from {
                        assert(t.subrange(0, i + 1 - from)[k] == t.subrange(0, i - from)[k]);
                    }
                }
            }
        }
        v = v * 10 + (c as u64 - '0' as u64);
        i = i + 1;
    }
    proof {
        assert(t.subrange(0, to - from) =~= t);
    }
    Some(v)
}

proof fn lemma_pow10_values()
    ensures
        pow10(0) == 1,
        pow10(1) == 10,
        pow10(2) == 100,
        pow10(3) == 1_000,
        pow10(4) == 10_000,
        pow10(5) == 100_000,
        pow10(6) == 1_000_000,
        pow10(7) == 10_000_000,
        pow10(8) == 100_000_000,
        pow10(9) == 1_000_000_000,
{
    reveal_with_fuel(pow10, 10);
}

proof fn lemma_pow10_mono(a: nat, b: nat)
    requires
        a <= b,
    ensures
        pow10(a) <= pow10(b),
    decreases b,
{
    if a < b {
        lemma_pow10_mono(a, (b - 1) as nat);
    }
}

/// Reads a decimal number such as `60.755173` as a count of millionths.
pub fn parse_decimal(s: &str) -> (r: Option<u64>)
    ensures
        r matches Some(v) ==> decimal_micros(s@) == Some(v as nat) && v < 1_000_000_000_000_000,
        r is None <==> decimal_micros(s@) is None,
{
    let n = s.unicode_len();
    let mut p: usize = 0;
    while p < n && s.get_char(p) != '.'
        invariant
            n == s@.len(),
            p <= n,
            forall|i: int| 0 <= i < p ==> s@[i] != '.',
        decreases n - p,
    {
        p = p + 1;
    }
    proof {
        lemma_dot_index_unique(s@, p as int);
    }
    if p == 0 || p > MAX_INTEGER_DIGITS {
        return None;
    }
    let whole = match read_digits(s, 0, p) {
        Some(w) => w,
        None => return None,
    };
    proof {
        lemma_digits_value_bound(s@.subrange(0, p as int));
        lemma_pow10_mono(p as nat, 9);
        lemma_pow10_values();
    }
    if p == n {
        return Some(whole * 1_000_000);
    }
    let f_len = n - p - 1;
    if f_len == 0 {
        return None;
    }
    let ghost f = s@.subrange(p + 1, n as int);
    let taken: usize = if f_len <= 6 { f_len } else { 6 };
    let frac = match read_digits(s, p + 1, p + 1 + taken) {
        Some(x) => x,
        None => {
            proof {
                let g = s@.subrange(p + 1, p + 1 + taken);
                let k = choose|k: int| 0 <= k < g.len() && !is_digit(#[trigger] g[k]);
                assert(g[k] == f[k]);
            }
            return None;
        },
    };
    let mut i: usize = p + 1 + taken;
    while i < n
        invariant
            n == s@.len(),
            p + 1 + taken <= i <= n,
            0 < p < n,
            p <= MAX_INTEGER_DIGITS,
            dot_index(s@) == p,
            all_digits(s@.subrange(0, p as int)),
            f == s@.subrange(p + 1, n as int),
            forall|k: int| 0 <= k < i - p - 1 ==> is_digit(#[trigger] f[k]),
            all_digits(s@.subrange(p + 1, p + 1 + taken)),
        decreases n - i,
    {
        proof {
            assert forall|k: int| 0 <= k < i - p - 1 implies is_digit(#[trigger] f[k]) by {
                if k < taken {
                    assert(f[k] == s@.subrange(p + 1, p + 1 + taken)[k]);
                }
            }
        }
        let c = s.get_char(i);
        if !('0' <= c && c <= '9') {
            proof {
                assert(f[i - p - 1] == c);
                assert(!is_digit(f[i - p - 1]));
                assert(!all_digits(f));
            }
            return None;
        }
        i = i + 1;
    }
    proof {
        assert forall|k: int| 0 <= k < f.len() implies is_digit(#[trigger] f[k]) by {
            if k < taken {
                assert(f[k] == s@.subrange(p + 1, p + 1 + taken)[k]);
            }
        }
        assert(f.subrange(0, taken as int) =~= s@.subrange(p + 1, p + 1 + taken));
        lemma_digits_value_bound(f.subrange(0, taken as int));
        lemma_pow10_values();
        if f_len <= 6 {
            assert(f.subrange(0, taken as int) =~= f);
        }
    }
    let scale: u64 = if taken == 6 {
        1
    } else if taken == 5 {
        10
    } else if taken == 4 {
        100
    } else if taken == 3 {
        1_000
    } else if taken == 2 {
        10_000
    } else {
        100_000
    };
    proof {
        lemma_pow10_values();
        lemma_pow10_mono(taken as nat, 6);
        assert(frac * scale < 1_000_000) by (nonlinear_arith)
            requires
                frac < pow10(taken as nat),
                scale * pow10(taken as nat) == 1_000_000,
        ;
    }
    Some(whole * 1_000_000 + frac * scale)
}

} // verus!
