use vstd::prelude::*;

use crate::situation::Betsize;

verus! {

/// Largest value a statistic may hold, in millionths: one billion percentage points.
pub const MAX_STAT: u64 = 1_000_000_000_000_000;

/// Solver statistics for one board, or averaged over many: equity, expected value,
/// bet frequency and check frequency, each in millionths of a percentage point.
///
/// `size` tags the row with the bet size of the situation it was taken from.
#[derive(Clone, Copy, Debug, PartialEq, Eq, Structural)]
pub struct StatRow {
    pub size: Option<Betsize>,
    pub eq: u64,
    pub ev: u64,
    pub bet_freq: u64,
    pub check_freq: u64,
}

/// Sum of one statistic over the rows.
pub open spec fn total(rows: Seq<StatRow>, f: spec_fn(StatRow) -> nat) -> nat
    decreases rows.len(),
{
    if rows.len() == 0 {
        0
    } else {
        total(rows.drop_last(), f) + f(rows.last())
    }
}

pub open spec fn eq_of(r: StatRow) -> nat {
    r.eq as nat
}

pub open spec fn ev_of(r: StatRow) -> nat {
    r.ev as nat
}

pub open spec fn bet_of(r: StatRow) -> nat {
    r.bet_freq as nat
}

pub open spec fn check_of(r: StatRow) -> nat {
    r.check_freq as nat
}

/// Each statistic at most `MAX_STAT`.
pub open spec fn stat_row_bounded(r: StatRow) -> bool {
    r.eq <= MAX_STAT && r.ev <= MAX_STAT && r.bet_freq <= MAX_STAT && r.check_freq <= MAX_STAT
}

/// The average of the rows, statistic by statistic, rounded down; the tag is the first row's.
pub open spec fn is_average(a: StatRow, rows: Seq<StatRow>) -> bool {
    &&& a.size == rows[0].size
    &&& a.eq as nat == total(rows, |r: StatRow| eq_of(r)) / rows.len()
    &&& a.ev as nat == total(rows, |r: StatRow| ev_of(r)) / rows.len()
    &&& a.bet_freq as nat == total(rows, |r: StatRow| bet_of(r)) / rows.len()
    &&& a.check_freq as nat == total(rows, |r: StatRow| check_of(r)) / rows.len()
}

proof fn lemma_total_same(rows: Seq<StatRow>, x: StatRow, f: spec_fn(StatRow) -> nat)
    requires
        forall|i: int| 0 <= i < rows.len() ==> #[trigger] rows[i] == x,
    ensures
        total(rows, f) == rows.len() * f(x),
    decreases rows.len(),
{
    if rows.len() > 0 {
        let t = rows.drop_last();
        assert forall|i: int| 0 <= i < t.len() implies #[trigger] t[i] == x by {
            assert(t[i] == rows[i]);
        }
        lemma_total_same(t, x, f);
        assert(rows[rows.len() - 1] == x);
        assert(t.len() * f(x) + f(x) == rows.len() * f(x)) by (nonlinear_arith)
            requires
                t.len() + 1 == rows.len(),
        ;
    }
}

impl StatRow {
    /// Field-wise sum of two rows with the same tag.
    pub fn add(&self, other: &StatRow) -> (r: StatRow)
        requires
            self.size == other.size,
            self.eq + other.eq <= u64::MAX,
            self.ev + other.ev <= u64::MAX,
            self.bet_freq + other.bet_freq <= u64::MAX,
            self.check_freq + other.check_freq <= u64::MAX,
        ensures
            r.size == self.size,
            r.eq == self.eq + other.eq,
            r.ev == self.ev + other.ev,
            r.bet_freq == self.bet_freq + other.bet_freq,
            r.check_freq == self.check_freq + other.check_freq,
    {
        StatRow {
            size: self.size,
            eq: self.eq + other.eq,
            ev: self.ev + other.ev,
            bet_freq: self.bet_freq + other.bet_freq,
            check_freq: self.check_freq + other.check_freq,
        }
    }

    /// Every statistic divided by `count`, rounded down; the tag is kept.
    pub fn div(&self, count: u64) -> (r: StatRow)
        requires
            count > 0,
        ensures
            r.size == self.size,
            r.eq == self.eq / count,
            r.ev == self.ev / count,
            r.bet_freq == self.bet_freq / count,
            r.check_freq == self.check_freq / count,
    {
        StatRow {
            size: self.size,
            eq: self.eq / count,
            ev: self.ev / count,
            bet_freq: self.bet_freq / count,
            check_freq: self.check_freq / count,
        }
    }
}

/// Averages the rows: sums every statistic and divides the sums by the number of rows.
pub fn build_data_row(rows: &Vec<StatRow>) -> (r: StatRow)
    requires
        rows@.len() > 0,
        forall|i: int| 0 <= i < rows@.len() ==> stat_row_bounded(#[trigger] rows@[i]),
    ensures
        is_average(r, rows@),
        stat_row_bounded(r),
{
    let n = rows.len();
    let mut eq: u128 = 0;
    let mut ev: u128 = 0;
    let mut bet: u128 = 0;
    let mut check: u128 = 0;
    let mut i: usize = 0;
    while i < n
        invariant
            n == rows@.len(),
            i <= n,
            forall|k: int| 0 <= k < rows@.len() ==> stat_row_bounded(#[trigger] rows@[k]),
            eq == total(rows@.subrange(0, i as int), |r: StatRow| eq_of(r)),
            ev == total(rows@.subrange(0, i as int), |r: StatRow| ev_of(r)),
            bet == total(rows@.subrange(0, i as int), |r: StatRow| bet_of(r)),
            check == total(rows@.subrange(0, i as int), |r: StatRow| check_of(r)),
            eq <= i * MAX_STAT,
            ev <= i * MAX_STAT,
            bet <= i * MAX_STAT,
            check <= i * MAX_STAT,
        decreases n - i,
    {
        let row = rows[i];
        proof {
            assert(rows@.subrange(0, i + 1).drop_last() =~= rows@.subrange(0, i as int));
            assert(stat_row_bounded(rows@[i as int]));
            assert((i + 1) * MAX_STAT == i * MAX_STAT + MAX_STAT) by (nonlinear_arith);
            assert(i * MAX_STAT <= usize::MAX * MAX_STAT) by (nonlinear_arith)
                requires
                    i <= usize::MAX,
            ;
        }
        eq = eq + row.eq as u128;
        ev = ev + row.ev as u128;
        bet = bet + row.bet_freq as u128;
        check = check + row.check_freq as u128;
        i = i + 1;
    }
    proof {
        assert(rows@.subrange(0, n as int) =~= rows@);
    }
    let count = n as u128;
    proof {
        assert(eq / count <= MAX_STAT) by (nonlinear_arith)
            requires
                eq <= count * MAX_STAT,
                count > 0,
        ;
        assert(ev / count <= MAX_STAT) by (nonlinear_arith)
            requires
                ev <= count * MAX_STAT,
                count > 0,
        ;
        assert(bet / count <= MAX_STAT) by (nonlinear_arith)
            requires
                bet <= count * MAX_STAT,
                count > 0,
        ;
        assert(check / count <= MAX_STAT) by (nonlinear_arith)
            requires
                check <= count * MAX_STAT,
                count > 0,
        ;
    }
    StatRow {
        size: rows[0].size,
        eq: (eq / count) as u64,
        ev: (ev / count) as u64,
        bet_freq: (bet / count) as u64,
        check_freq: (check / count) as u64,
    }
}

proof fn lemma_div_mul_cancel(k: nat, v: nat)
    requires
        k > 0,
    ensures
        (k * v) / k == v,
{
    assert((k * v) / k == v) by (nonlinear_arith)
        requires
            k > 0,
    ;
}

/// Averaging k copies of one row gives that row back.
pub proof fn lemma_average_of_identical_rows(rows: Seq<StatRow>, x: StatRow, a: StatRow)
    requires
        rows.len() > 0,
        forall|i: int| 0 <= i < rows.len() ==> #[trigger] rows[i] == x,
        is_average(a, rows),
    ensures
        a == x,
{
    let k = rows.len();
    lemma_total_same(rows, x, |r: StatRow| eq_of(r));
    lemma_total_same(rows, x, |r: StatRow| ev_of(r));
    lemma_total_same(rows, x, |r: StatRow| bet_of(r));
    lemma_total_same(rows, x, |r: StatRow| check_of(r));
    assert(rows[0] == x);
    lemma_div_mul_cancel(k, x.eq as nat);
    lemma_div_mul_cancel(k, x.ev as nat);
    lemma_div_mul_cancel(k, x.bet_freq as nat);
    lemma_div_mul_cancel(k, x.check_freq as nat);
    assert(a.eq as nat == (k * (x.eq as nat)) / k);
    assert(a.ev as nat == (k * (x.ev as nat)) / k);
    assert(a.bet_freq as nat == (k * (x.bet_freq as nat)) / k);
    assert(a.check_freq as nat == (k * (x.check_freq as nat)) / k);
}

} // verus!
