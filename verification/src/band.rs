//! Band detection: which bars follow a value outside `mean ± sigma * std`.
//!
//! With `gap = count * v - sum`, `spread = count * sum_sq - sum * sum` and
//! `sigma = num / den`, the value `v` lies at `gap / count` above the mean,
//! and the sample deviation is the square root of
//! `spread / (count * (count - 1))`. Both sides of
//! `v - mean >= sigma * std` are then non-negative, and squaring it gives
//!
//! ```text
//! gap >= 0  and  gap^2 * den^2 * (count - 1) >= spread * num^2 * count
//! ```
//!
//! which holds integers only. A window of a single value has no sample
//! deviation, so nothing reaches its bands.

use vstd::prelude::*;
use crate::config::Ratio;
use crate::rolling::{Sums, WindowStat};
use crate::wide::product_ge;

verus! {

/// Whether a value that lies `dist / count` beyond the mean of `m`, on either
/// side, is at least `sigma` sample deviations away from it.
pub open spec fn band_reached(m: Sums, sigma: Ratio, dist: int) -> bool {
    &&& m.count >= 2
    &&& dist >= 0
    &&& (dist * dist) * ((sigma.den() * sigma.den()) * (m.count - 1)) >= m.spread() * ((sigma.num()
        * sigma.num()) * m.count)
}

/// `v >= mean + sigma * std`.
pub open spec fn at_or_above_band(v: int, m: Sums, sigma: Ratio) -> bool {
    band_reached(m, sigma, m.gap(v))
}

/// `v <= mean - sigma * std`.
pub open spec fn at_or_below_band(v: int, m: Sums, sigma: Ratio) -> bool {
    band_reached(m, sigma, -m.gap(v))
}

/// The statistic of bar `i`, where the column of statistics has one.
pub open spec fn stat_of_row(stats: Seq<Option<WindowStat>>, i: int) -> Option<Sums> {
    if 0 <= i < stats.len() {
        crate::rolling::stat_view(stats[i])
    } else {
        None
    }
}

/// Whether bar `i` follows a value at or above the upper band: the bar
/// before it exists, bar `i` has a statistic, and that bar's value reaches
/// the band.
pub open spec fn touched_above_at(
    column: Seq<u32>,
    stats: Seq<Option<WindowStat>>,
    sigma: Ratio,
    i: int,
) -> bool {
    &&& 1 <= i < column.len()
    &&& stat_of_row(stats, i) matches Some(m)
    &&& at_or_above_band(column[i - 1] as int, m, sigma)
}

/// Whether bar `i` follows a value at or below the lower band.
pub open spec fn touched_below_at(
    column: Seq<u32>,
    stats: Seq<Option<WindowStat>>,
    sigma: Ratio,
    i: int,
) -> bool {
    &&& 1 <= i < column.len()
    &&& stat_of_row(stats, i) matches Some(m)
    &&& at_or_below_band(column[i - 1] as int, m, sigma)
}

fn reaches(st: &WindowStat, sigma: Ratio, dist: i128) -> (r: bool)
    requires
        -0x1_0000_0000_0000_0000 < dist < 0x1_0000_0000_0000_0000,
    ensures
        r == band_reached(st@, sigma, dist as int),
{
    let count = st.count();
    if count < 2 || dist < 0 {
        return false;
    }
    let d: u128 = dist as u128;
    let p: u128 = sigma.numerator() as u128;
    let q: u128 = sigma.denominator() as u128;
    let c: u128 = count as u128;
    proof {
        assert(0 <= d * d <= 0xffff_ffff_ffff_ffff * 0xffff_ffff_ffff_ffff) by (nonlinear_arith)
            requires
                0 <= d <= 0xffff_ffff_ffff_ffff,
        ;
        assert(0 <= q * q <= 0xffff_ffff * 0xffff_ffff) by (nonlinear_arith)
            requires
                0 <= q <= 0xffff_ffff,
        ;
        assert(0 <= p * p <= 0xffff_ffff * 0xffff_ffff) by (nonlinear_arith)
            requires
                0 <= p <= 0xffff_ffff,
        ;
        assert(0 <= (q * q) * (c - 1) <= (0xffff_ffff * 0xffff_ffff) * 0xffff_ffff)
            by (nonlinear_arith)
            requires
                0 <= q * q <= 0xffff_ffff * 0xffff_ffff,
                1 <= c <= 0xffff_ffff,
        ;
        assert(0 <= (p * p) * c <= (0xffff_ffff * 0xffff_ffff) * 0xffff_ffff) by (nonlinear_arith)
            requires
                0 <= p * p <= 0xffff_ffff * 0xffff_ffff,
                1 <= c <= 0xffff_ffff,
        ;
    }
    product_ge(d * d, (q * q) * (c - 1), st.spread(), (p * p) * c)
}

/// Whether `v >= mean + sigma * std` for the mean and the sample deviation of `st`.
pub fn reaches_upper_band(v: u32, st: &WindowStat, sigma: Ratio) -> (r: bool)
    ensures
        r == at_or_above_band(v as int, st@, sigma),
{
    reaches(st, sigma, st.gap(v))
}

/// Whether `v <= mean - sigma * std` for the mean and the sample deviation of `st`.
pub fn reaches_lower_band(v: u32, st: &WindowStat, sigma: Ratio) -> (r: bool)
    ensures
        r == at_or_below_band(v as int, st@, sigma),
{
    reaches(st, sigma, -st.gap(v))
}

fn touched_above(column: &Vec<u32>, stats: &Vec<Option<WindowStat>>, sigma: Ratio) -> (flags: Vec<
    bool,
>)
    ensures
        flags.len() == column.len(),
        forall|i: int|
            0 <= i < column.len() ==> #[trigger] flags[i] == touched_above_at(
                column@,
                stats@,
                sigma,
                i,
            ),
{
    let n = column.len();
    let mut flags: Vec<bool> = Vec::new();
    let mut i: usize = 0;
    while i < n
        invariant
            n == column.len(),
            0 <= i <= n,
            flags.len() == i,
            forall|k: int|
                0 <= k < i ==> #[trigger] flags[k] == touched_above_at(column@, stats@, sigma, k),
        decreases n - i,
    {
        let flag = if i >= 1 && i < stats.len() {
            match &stats[i] {
                Some(st) => reaches_upper_band(column[i - 1], st, sigma),
                None => false,
            }
        } else {
            false
        };
        flags.push(flag);
        i = i + 1;
    }
    flags
}

/// Flags the bars that follow an abnormal volume: bar `i` is flagged where
/// `volume[i - 1] >= mean + sigma * std` for the statistic of bar `i`. A bar
/// without a statistic, or without a bar before it, is not flagged.
pub fn abnormal(volume: &Vec<u32>, stats: &Vec<Option<WindowStat>>, sigma: Ratio) -> (flags: Vec<
    bool,
>)
    ensures
        flags.len() == volume.len(),
        forall|i: int|
            0 <= i < volume.len() ==> #[trigger] flags[i] == touched_above_at(
                volume@,
                stats@,
                sigma,
                i,
            ),
{
    touched_above(volume, stats, sigma)
}

/// Flags the bars that follow a touch of the upper band: bar `i` is flagged
/// where `high[i - 1] >= mean + sigma * std` for the statistic of bar `i`. A
/// bar without a statistic, or without a bar before it, is not flagged.
pub fn upper_bound_touched(high: &Vec<u32>, stats: &Vec<Option<WindowStat>>, sigma: Ratio) -> (flags:
    Vec<bool>)
    ensures
        flags.len() == high.len(),
        forall|i: int|
            0 <= i < high.len() ==> #[trigger] flags[i] == touched_above_at(
                high@,
                stats@,
                sigma,
                i,
            ),
{
    touched_above(high, stats, sigma)
}

/// Flags the bars that follow a touch of the lower band: bar `i` is flagged
/// where `low[i - 1] <= mean - sigma * std` for the statistic of bar `i`. A
/// bar without a statistic, or without a bar before it, is not flagged.
pub fn lower_bound_touched(low: &Vec<u32>, stats: &Vec<Option<WindowStat>>, sigma: Ratio) -> (flags:
    Vec<bool>)
    ensures
        flags.len() == low.len(),
        forall|i: int|
            0 <= i < low.len() ==> #[trigger] flags[i] == touched_below_at(low@, stats@, sigma, i),
{
    let n = low.len();
    let mut flags: Vec<bool> = Vec::new();
    let mut i: usize = 0;
    while i < n
        invariant
            n == low.len(),
            0 <= i <= n,
            flags.len() == i,
            forall|k: int|
                0 <= k < i ==> #[trigger] flags[k] == touched_below_at(low@, stats@, sigma, k),
        decreases n - i,
    {
        let flag = if i >= 1 && i < stats.len() {
            match &stats[i] {
                Some(st) => reaches_lower_band(low[i - 1], st, sigma),
                None => false,
            }
        } else {
            false
        };
        flags.push(flag);
        i = i + 1;
    }
    flags
}

} // verus!
