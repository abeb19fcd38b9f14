//! Trailing window statistics.
//!
//! The statistic of a bar is taken over the bars before it, never over the
//! bar itself. It is kept as three exact integers: how many values the
//! window holds, their sum and the sum of their squares. The mean is
//! `sum / count`, and the sample variance, with `count - 1` below the line,
//! is `spread / (count * (count - 1))`. The sums slide along the column, one
//! value in and one out; as no value is ever rounded, the order of summation
//! cannot change an outcome.

use vstd::prelude::*;
use crate::config::RollingWindowConfig;

verus! {

/// The count, the sum and the sum of squares of a window, as numbers.
pub ghost struct Sums {
    pub count: int,
    pub sum: int,
    pub sum_sq: int,
}

impl Sums {
    /// `count * sum_sq - sum * sum`: the sample variance times `count * (count - 1)`.
    pub open spec fn spread(self) -> int {
        self.count * self.sum_sq - self.sum * self.sum
    }

    /// `count * v - sum`: how far `v` lies above the mean, times `count`.
    pub open spec fn gap(self, v: int) -> int {
        self.count * v - self.sum
    }

    /// What holds of the sums of every window of `u32` values.
    pub open spec fn bounded(self) -> bool {
        &&& 0 <= self.count <= u32::MAX
        &&& 0 <= self.sum <= self.count * 0xffff_ffff
        &&& 0 <= self.sum_sq <= self.count * 0xffff_fffe_0000_0001
        &&& self.spread() >= 0
    }
}

/// The sum of `s[lo..hi]`.
pub open spec fn window_sum(s: Seq<u32>, lo: int, hi: int) -> int
    decreases hi - lo,
{
    if hi <= lo {
        0
    } else {
        window_sum(s, lo, hi - 1) + s[hi - 1]
    }
}

/// The sum of the squares of `s[lo..hi]`.
pub open spec fn window_sum_sq(s: Seq<u32>, lo: int, hi: int) -> int
    decreases hi - lo,
{
    if hi <= lo {
        0
    } else {
        window_sum_sq(s, lo, hi - 1) + s[hi - 1] * s[hi - 1]
    }
}

/// The sum of the squared distances of `s[lo..hi]` from `x`.
pub open spec fn window_dev_sq(s: Seq<u32>, lo: int, hi: int, x: int) -> int
    decreases hi - lo,
{
    if hi <= lo {
        0
    } else {
        window_dev_sq(s, lo, hi - 1, x) + (s[hi - 1] - x) * (s[hi - 1] - x)
    }
}

/// The sums of `s[lo..hi]`.
pub open spec fn sums_of(s: Seq<u32>, lo: int, hi: int) -> Sums {
    Sums { count: hi - lo, sum: window_sum(s, lo, hi), sum_sq: window_sum_sq(s, lo, hi) }
}

/// The first bar of the window that ends just before bar `i`.
pub open spec fn window_start(i: int, size: int) -> int {
    if i >= size {
        i - size
    } else {
        0
    }
}

/// The statistic of bar `i`: the sums of the bars `window_start(i, size) .. i`
/// once `least` bars are behind bar `i`, and nothing before that.
pub open spec fn stat_at(s: Seq<u32>, size: int, least: int, i: int) -> Option<Sums> {
    if i < least {
        None
    } else {
        Some(sums_of(s, window_start(i, size), i))
    }
}

/// What a window held. Only `rolling_stats` makes one, so the sums are always
/// those of some window.
#[derive(Clone, Copy, Debug, PartialEq, Eq, Structural)]
pub struct WindowStat {
    count: u32,
    sum: u64,
    sum_sq: u128,
}

impl View for WindowStat {
    type V = Sums;

    closed spec fn view(&self) -> Sums {
        Sums { count: self.count as int, sum: self.sum as int, sum_sq: self.sum_sq as int }
    }
}

/// The statistic of a bar as numbers, where there is one.
pub open spec fn stat_view(stat: Option<WindowStat>) -> Option<Sums> {
    match stat {
        Some(st) => Some(st@),
        None => None,
    }
}

impl WindowStat {
    #[verifier::type_invariant]
    spec fn inv(self) -> bool {
        self@.bounded()
    }

    /// The number of values in the window.
    pub fn count(&self) -> (n: u32)
        ensures
            n == self@.count,
    {
        self.count
    }

    /// The sum of the values in the window.
    pub fn sum(&self) -> (n: u64)
        ensures
            n == self@.sum,
    {
        self.sum
    }

    /// The sum of the squares of the values in the window.
    pub fn sum_sq(&self) -> (n: u128)
        ensures
            n == self@.sum_sq,
    {
        self.sum_sq
    }

    /// `count * sum_sq - sum * sum`, which is never negative.
    pub fn spread(&self) -> (n: u128)
        ensures
            n == self@.spread(),
            self@.bounded(),
    {
        proof {
            use_type_invariant(self);
            lemma_spread_fits(self@);
        }
        (self.count as u128) * self.sum_sq - (self.sum as u128) * (self.sum as u128)
    }

    /// `count * v - sum`, negative where `v` lies below the mean.
    pub fn gap(&self, v: u32) -> (n: i128)
        ensures
            n == self@.gap(v as int),
            -0x1_0000_0000_0000_0000 < n < 0x1_0000_0000_0000_0000,
            self@.bounded(),
    {
        proof {
            use_type_invariant(self);
            let c = self.count as int;
            assert(0 <= c * v <= 0xffff_ffff * 0xffff_ffff) by (nonlinear_arith)
                requires
                    0 <= c <= 0xffff_ffff,
                    0 <= v <= 0xffff_ffff,
            ;
        }
        (self.count as i128) * (v as i128) - (self.sum as i128)
    }
}

proof fn lemma_spread_fits(m: Sums)
    requires
        m.bounded(),
    ensures
        0 <= m.count * m.sum_sq <= u128::MAX,
        0 <= m.sum * m.sum <= m.count * m.sum_sq,
{
    let c = m.count;
    let q = m.sum_sq;
    assert(0 <= c * q <= 0xffff_ffff * (0xffff_ffff * 0xffff_fffe_0000_0001)) by (nonlinear_arith)
        requires
            0 <= c <= 0xffff_ffff,
            0 <= q <= c * 0xffff_fffe_0000_0001,
    ;
    assert(0 <= m.sum * m.sum) by (nonlinear_arith);
}

/// A window's sums are bounded by its length.
pub proof fn lemma_window_bounds(s: Seq<u32>, lo: int, hi: int)
    requires
        0 <= lo <= hi <= s.len(),
    ensures
        0 <= window_sum(s, lo, hi) <= (hi - lo) * 0xffff_ffff,
        0 <= window_sum_sq(s, lo, hi) <= (hi - lo) * 0xffff_fffe_0000_0001,
    decreases hi - lo,
{
    if hi > lo {
        lemma_window_bounds(s, lo, hi - 1);
        let x = s[hi - 1] as int;
        assert(0 <= x * x <= 0xffff_fffe_0000_0001) by (nonlinear_arith)
            requires
                0 <= x <= 0xffff_ffff,
        ;
    }
}

/// Dropping the first bar of a window takes its value out of the sums.
pub proof fn lemma_window_drop_first(s: Seq<u32>, lo: int, hi: int)
    requires
        0 <= lo < hi <= s.len(),
    ensures
        window_sum(s, lo + 1, hi) == window_sum(s, lo, hi) - s[lo],
        window_sum_sq(s, lo + 1, hi) == window_sum_sq(s, lo, hi) - s[lo] * s[lo],
    decreases hi - lo,
{
    if hi > lo + 1 {
        lemma_window_drop_first(s, lo, hi - 1);
    } else {
        assert(window_sum(s, lo, lo) == 0);
        assert(window_sum_sq(s, lo, lo) == 0);
    }
}

/// The squared distances from `x` add up to `sum_sq - 2 * x * sum + count * x * x`.
pub proof fn lemma_window_dev_sq(s: Seq<u32>, lo: int, hi: int, x: int)
    requires
        0 <= lo <= hi <= s.len(),
    ensures
        window_dev_sq(s, lo, hi, x) >= 0,
        window_dev_sq(s, lo, hi, x) == window_sum_sq(s, lo, hi) - 2 * (x * window_sum(s, lo, hi))
            + (hi - lo) * (x * x),
    decreases hi - lo,
{
    let xx = x * x;
    if hi > lo {
        lemma_window_dev_sq(s, lo, hi - 1, x);
        let y = s[hi - 1] as int;
        let t = window_sum(s, lo, hi - 1);
        let n = hi - 1 - lo;
        assert((y - x) * (y - x) >= 0) by (nonlinear_arith);
        assert((y - x) * (y - x) == y * y - 2 * (x * y) + xx) by (nonlinear_arith)
            requires
                xx == x * x,
        ;
        assert(x * (t + y) == x * t + x * y) by (nonlinear_arith);
        assert((n + 1) * xx == n * xx + xx) by (nonlinear_arith);
        assert(window_sum(s, lo, hi) == t + y);
        assert(hi - lo == n + 1);
    } else {
        assert(x * 0 == 0) by (nonlinear_arith);
        assert(0 * xx == 0) by (nonlinear_arith);
        assert(window_sum(s, lo, hi) == 0);
        assert(hi - lo == 0);
    }
}

/// The spread of a window is never negative: `count * sum_sq >= sum * sum`.
pub proof fn lemma_spread_nonnegative(s: Seq<u32>, lo: int, hi: int)
    requires
        0 <= lo <= hi <= s.len(),
    ensures
        sums_of(s, lo, hi).spread() >= 0,
    decreases hi - lo,
{
    if hi > lo {
        lemma_spread_nonnegative(s, lo, hi - 1);
        let x = s[hi - 1] as int;
        lemma_window_dev_sq(s, lo, hi - 1, x);
        let n = hi - 1 - lo;
        let t = window_sum(s, lo, hi - 1);
        let q = window_sum_sq(s, lo, hi - 1);
        let d = window_dev_sq(s, lo, hi - 1, x);
        assert((n + 1) * (q + x * x) - (t + x) * (t + x) == (n * q - t * t) + (q - 2 * (x * t) + n
            * (x * x))) by (nonlinear_arith);
    } else {
        assert(sums_of(s, lo, hi).spread() == 0) by (nonlinear_arith)
            requires
                sums_of(s, lo, hi).count == 0,
                sums_of(s, lo, hi).sum == 0,
                sums_of(s, lo, hi).sum_sq == 0,
        ;
    }
}

/// The sums of a window of at most `u32::MAX` bars are bounded.
pub proof fn lemma_sums_bounded(s: Seq<u32>, lo: int, hi: int)
    requires
        0 <= lo <= hi <= s.len(),
        hi - lo <= u32::MAX,
    ensures
        sums_of(s, lo, hi).bounded(),
{
    lemma_window_bounds(s, lo, hi);
    lemma_spread_nonnegative(s, lo, hi);
}

/// Two statistics that hold the same numbers are the same statistic.
pub proof fn lemma_stat_view_injective(a: Option<WindowStat>, b: Option<WindowStat>)
    requires
        stat_view(a) == stat_view(b),
    ensures
        a == b,
{
    if a is Some && b is Some {
        let x = a->0;
        let y = b->0;
        assert(x@ == y@);
        assert(x.count == y.count && x.sum == y.sum && x.sum_sq == y.sum_sq);
    }
}

/// The statistics of every bar of a column.
///
/// Bar `i` gets the count, the sum and the sum of squares of the bars
/// `i - window_size .. i` (from bar 0 where there are fewer), and nothing
/// while fewer than `min_periods` bars are behind it.
pub fn rolling_stats(column: &Vec<u32>, window: RollingWindowConfig) -> (stats: Vec<
    Option<WindowStat>,
>)
    ensures
        stats.len() == column.len(),
        forall|i: int|
            0 <= i < column.len() ==> stat_view(#[trigger] stats[i]) == stat_at(
                column@,
                window.size(),
                window.least(),
                i,
            ),
        forall|i: int| 0 <= i < column.len() ==> (#[trigger] stats[i] is None <==> i < window.least()),
{
    let size = window.window_size();
    let least = window.min_periods();
    let n = column.len();
    let mut stats: Vec<Option<WindowStat>> = Vec::new();
    let mut count: u32 = 0;
    let mut sum: u64 = 0;
    let mut sum_sq: u128 = 0;
    let mut i: usize = 0;
    while i < n
        invariant
            n == column.len(),
            size == window.size(),
            least == window.least(),
            0 < least <= size,
            0 <= i <= n,
            stats.len() == i,
            count == i - window_start(i as int, size as int),
            sum == window_sum(column@, window_start(i as int, size as int), i as int),
            sum_sq == window_sum_sq(column@, window_start(i as int, size as int), i as int),
            forall|k: int|
                0 <= k < i ==> stat_view(#[trigger] stats[k]) == stat_at(
                    column@,
                    window.size(),
                    window.least(),
                    k,
                ),
        decreases n - i,
    {
        let ghost lo = window_start(i as int, size as int);
        if count >= least {
            proof {
                lemma_sums_bounded(column@, lo, i as int);
            }
            stats.push(Some(WindowStat { count, sum, sum_sq }));
        } else {
            stats.push(None);
        }
        let x = column[i];
        proof {
            lemma_window_bounds(column@, lo, i as int);
            lemma_window_bounds(column@, lo, i + 1);
            assert(0 <= x * x <= 0xffff_fffe_0000_0001) by (nonlinear_arith)
                requires
                    0 <= x <= 0xffff_ffff,
            ;
        }
        if count == size {
            let gone = column[i - size as usize];
            proof {
                lemma_window_drop_first(column@, lo, i + 1);
                lemma_window_bounds(column@, lo + 1, i + 1);
                assert(0 <= gone * gone <= 0xffff_fffe_0000_0001) by (nonlinear_arith)
                    requires
                        0 <= gone <= 0xffff_ffff,
                ;
            }
            sum = sum + x as u64 - gone as u64;
            sum_sq = sum_sq + (x as u128) * (x as u128) - (gone as u128) * (gone as u128);
        } else {
            sum = sum + x as u64;
            sum_sq = sum_sq + (x as u128) * (x as u128);
            count = count + 1;
        }
        i = i + 1;
    }
    stats
}

} // verus!
