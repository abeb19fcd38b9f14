//! Trend labels: the rule that labels a bar, and the forecast of an episode.
//!
//! A bar's excursions are measured against the open of its episode's first
//! bar: with `rising = high - open` and `falling = low - open`, it rose by
//! `rising / open` and fell to `falling / open`. With a target `num / den`
//! and a positive open, `rising / open >= num / den` is
//! `rising * den >= num * open`, and `falling / open <= -num / den` is
//! `falling * den <= -num * open`. An episode that opens at zero has no
//! finite excursion: a rise above it is without bound and reaches every
//! target, a fall below it likewise, and a bar that stays at zero reaches
//! nothing.

use vstd::prelude::*;
use crate::config::Ratio;
use crate::episode::{lemma_run_is, lemma_run_is_partition, lemma_run_shape, run_end, run_start};
use crate::segment::nondecreasing;

verus! {

/// Direction an episode has taken, seen from its opening price.
#[derive(Clone, Copy, Debug, PartialEq, Eq, Structural)]
pub enum Trend {
    /// Neither target was reached.
    Unknown,
    /// Only the falling target was reached.
    Bear,
    /// Only the rising target was reached.
    Bull,
    /// Both targets were reached on the same bar.
    Chaos,
}

impl Trend {
    /// The number that stands for this label in a table: 0, 1, 2 or 3.
    pub open spec fn code_of(self) -> int {
        match self {
            Trend::Unknown => 0,
            Trend::Bear => 1,
            Trend::Bull => 2,
            Trend::Chaos => 3,
        }
    }

    /// The number that stands for this label in a table:
    /// 0 for `Unknown`, 1 for `Bear`, 2 for `Bull`, 3 for `Chaos`.
    pub fn code(&self) -> (c: u32)
        ensures
            c == self.code_of(),
    {
        match self {
            Trend::Unknown => 0,
            Trend::Bear => 1,
            Trend::Bull => 2,
            Trend::Chaos => 3,
        }
    }

    /// The label that `code` stands for, if it stands for one.
    pub fn from_code(code: u32) -> (t: Option<Trend>)
        ensures
            t is Some <==> code <= 3,
            t matches Some(l) ==> l.code_of() == code,
    {
        if code == 0 {
            Some(Trend::Unknown)
        } else if code == 1 {
            Some(Trend::Bear)
        } else if code == 2 {
            Some(Trend::Bull)
        } else if code == 3 {
            Some(Trend::Chaos)
        } else {
            None
        }
    }
}

/// The label for a bar, given which targets its excursions reached.
pub open spec fn label_of(rising_reached: bool, falling_reached: bool) -> Trend {
    if rising_reached && falling_reached {
        Trend::Chaos
    } else if rising_reached {
        Trend::Bull
    } else if falling_reached {
        Trend::Bear
    } else {
        Trend::Unknown
    }
}

/// Whether a rise of `rising` from `open` is at least `target`: `rising / open >= target`.
pub open spec fn rising_reached(rising: int, open: int, target: Ratio) -> bool {
    if open == 0 {
        rising > 0
    } else {
        rising * target.den() >= target.num() * open
    }
}

/// Whether a fall of `falling` from `open` is at least `target`: `falling / open <= -target`.
pub open spec fn falling_reached(falling: int, open: int, target: Ratio) -> bool {
    if open == 0 {
        falling < 0
    } else {
        falling * target.den() <= -(target.num() * open)
    }
}

/// The label of bar `i`, whose excursions `rising[i]` and `falling[i]` are
/// measured against `first_open[i]`.
pub open spec fn trend_at(
    rising: Seq<i64>,
    falling: Seq<i64>,
    first_open: Seq<u32>,
    target: Ratio,
    i: int,
) -> Trend {
    label_of(
        rising_reached(rising[i] as int, first_open[i] as int, target),
        falling_reached(falling[i] as int, first_open[i] as int, target),
    )
}

/// The first label among `trend[lo..hi]` that is not `Unknown`, or `Unknown` if there is none.
pub open spec fn first_decisive(trend: Seq<Trend>, lo: int, hi: int) -> Trend
    decreases hi - lo,
{
    if lo >= hi {
        Trend::Unknown
    } else if trend[lo] != Trend::Unknown {
        trend[lo]
    } else {
        first_decisive(trend, lo + 1, hi)
    }
}

/// The forecast of bar `i`: the first decisive label of its episode.
pub open spec fn forecast_at(group: Seq<usize>, trend: Seq<Trend>, i: int) -> Trend {
    first_decisive(trend, run_start(group, i), run_end(group, i))
}

/// Labels a bar. A bar that reached both targets is `Chaos`, never `Bull` or `Bear`.
pub fn classify(rising_reached: bool, falling_reached: bool) -> (t: Trend)
    ensures
        t == label_of(rising_reached, falling_reached),
        rising_reached && falling_reached ==> t == Trend::Chaos,
{
    if rising_reached && falling_reached {
        Trend::Chaos
    } else if rising_reached {
        Trend::Bull
    } else if falling_reached {
        Trend::Bear
    } else {
        Trend::Unknown
    }
}

/// Whether a rise of `rising` from `open` reaches `target`.
pub fn has_risen(rising: i64, open: u32, target: Ratio) -> (r: bool)
    ensures
        r == rising_reached(rising as int, open as int, target),
{
    if open == 0 {
        return rising > 0;
    }
    let num = target.numerator() as i128;
    let den = target.denominator() as i128;
    proof {
        assert(-0x8000_0000_0000_0000 * 0xffff_ffff <= rising * den <= 0x8000_0000_0000_0000
            * 0xffff_ffff) by (nonlinear_arith)
            requires
                -0x8000_0000_0000_0000 <= rising <= 0x8000_0000_0000_0000,
                0 <= den <= 0xffff_ffff,
        ;
        assert(0 <= num * open <= 0xffff_ffff * 0xffff_ffff) by (nonlinear_arith)
            requires
                0 <= num <= 0xffff_ffff,
                0 <= open <= 0xffff_ffff,
        ;
    }
    (rising as i128) * den >= num * (open as i128)
}

/// Whether a fall of `falling` from `open` reaches `target`.
pub fn has_fallen(falling: i64, open: u32, target: Ratio) -> (r: bool)
    ensures
        r == falling_reached(falling as int, open as int, target),
{
    if open == 0 {
        return falling < 0;
    }
    let num = target.numerator() as i128;
    let den = target.denominator() as i128;
    proof {
        assert(-0x8000_0000_0000_0000 * 0xffff_ffff <= falling * den <= 0x8000_0000_0000_0000
            * 0xffff_ffff) by (nonlinear_arith)
            requires
                -0x8000_0000_0000_0000 <= falling <= 0x8000_0000_0000_0000,
                0 <= den <= 0xffff_ffff,
        ;
        assert(0 <= num * open <= 0xffff_ffff * 0xffff_ffff) by (nonlinear_arith)
            requires
                0 <= num <= 0xffff_ffff,
                0 <= open <= 0xffff_ffff,
        ;
    }
    (falling as i128) * den <= -(num * (open as i128))
}

/// Labels every bar by its excursions from the open of its episode's first
/// bar: `Chaos` where both the rise and the fall reach `target_pnl`, else
/// `Bull` where the rise does, else `Bear` where the fall does, else
/// `Unknown`.
pub fn trend_from_base(
    rising: &Vec<i64>,
    falling: &Vec<i64>,
    first_open: &Vec<u32>,
    target_pnl: Ratio,
) -> (trend: Vec<Trend>)
    requires
        falling.len() == rising.len(),
        first_open.len() == rising.len(),
    ensures
        trend.len() == rising.len(),
        forall|i: int|
            0 <= i < rising.len() ==> #[trigger] trend[i] == trend_at(
                rising@,
                falling@,
                first_open@,
                target_pnl,
                i,
            ),
        forall|i: int|
            0 <= i < rising.len() && rising_reached(
                rising[i] as int,
                first_open[i] as int,
                target_pnl,
            ) && falling_reached(falling[i] as int, first_open[i] as int, target_pnl)
                ==> #[trigger] trend[i] == Trend::Chaos,
{
    let n = rising.len();
    let mut trend: Vec<Trend> = Vec::new();
    let mut i: usize = 0;
    while i < n
        invariant
            n == rising.len(),
            falling.len() == n,
            first_open.len() == n,
            0 <= i <= n,
            trend.len() == i,
            forall|k: int|
                0 <= k < i ==> #[trigger] trend[k] == trend_at(
                    rising@,
                    falling@,
                    first_open@,
                    target_pnl,
                    k,
                ),
        decreases n - i,
    {
        let up = has_risen(rising[i], first_open[i], target_pnl);
        let down = has_fallen(falling[i], first_open[i], target_pnl);
        trend.push(classify(up, down));
        i = i + 1;
    }
    trend
}

/// Gives every bar the forecast of its episode: the label of the episode's
/// first bar that is not `Unknown`, or `Unknown` where it has none.
pub fn trend_forcast_over_group(group: &Vec<usize>, trend: &Vec<Trend>) -> (forecast: Vec<Trend>)
    requires
        trend.len() == group.len(),
    ensures
        forecast.len() == group.len(),
        forall|i: int|
            0 <= i < group.len() ==> #[trigger] forecast[i] == forecast_at(group@, trend@, i),
{
    let n = group.len();
    let mut forecast: Vec<Trend> = Vec::new();
    let mut start: usize = 0;
    while start < n
        invariant
            n == group.len(),
            trend.len() == n,
            0 <= start <= n,
            0 < start < n ==> group[start - 1] != group[start as int],
            forecast.len() == start,
            forall|k: int|
                0 <= k < start ==> #[trigger] forecast[k] == forecast_at(group@, trend@, k),
        decreases n - start,
    {
        let id = group[start];
        let mut label = trend[start];
        let mut end: usize = start + 1;
        proof {
            lemma_first_decisive_extend(trend@, start as int, start as int);
        }
        while end < n && group[end] == id
            invariant
                n == group.len(),
                trend.len() == n,
                start < end <= n,
                id == group[start as int],
                forall|j: int| start <= j < end ==> group[j] == id,
                label == first_decisive(trend@, start as int, end as int),
            decreases n - end,
        {
            proof {
                lemma_first_decisive_extend(trend@, start as int, end as int);
            }
            if label == Trend::Unknown {
                label = trend[end];
            }
            end = end + 1;
        }
        let mut k: usize = start;
        while k < end
            invariant
                n == group.len(),
                0 <= start <= k <= end <= n,
                start < end,
                forall|j: int| start <= j < end ==> group[j] == group[start as int],
                start > 0 ==> group[start - 1] != group[start as int],
                end < n ==> group[end as int] != group[start as int],
                label == first_decisive(trend@, start as int, end as int),
                forecast.len() == k,
                forall|r: int|
                    0 <= r < k ==> #[trigger] forecast[r] == forecast_at(group@, trend@, r),
            decreases end - k,
        {
            proof {
                lemma_run_is(group@, start as int, end as int, k as int);
            }
            forecast.push(label);
            k = k + 1;
        }
        start = end;
    }
    forecast
}

/// One more bar changes the first decisive label only where there was none.
pub proof fn lemma_first_decisive_extend(trend: Seq<Trend>, lo: int, hi: int)
    requires
        lo <= hi,
    ensures
        first_decisive(trend, lo, hi + 1) == if first_decisive(trend, lo, hi) == Trend::Unknown {
            trend[hi]
        } else {
            first_decisive(trend, lo, hi)
        },
    decreases hi - lo,
{
    if lo < hi {
        lemma_first_decisive_extend(trend, lo + 1, hi);
    } else {
        reveal_with_fuel(first_decisive, 2);
    }
}

/// The first decisive label of a stretch is `Unknown` and so is every label
/// in it, or it is the label of some bar of the stretch before which every
/// label is `Unknown`.
pub proof fn lemma_first_decisive_is_first(trend: Seq<Trend>, lo: int, hi: int) -> (k: int)
    requires
        lo <= hi,
    ensures
        lo <= k <= hi,
        forall|j: int| lo <= j < k ==> trend[j] == Trend::Unknown,
        k == hi ==> first_decisive(trend, lo, hi) == Trend::Unknown,
        k < hi ==> trend[k] != Trend::Unknown && first_decisive(trend, lo, hi) == trend[k],
    decreases hi - lo,
{
    if lo >= hi {
        hi
    } else if trend[lo] != Trend::Unknown {
        lo
    } else {
        lemma_first_decisive_is_first(trend, lo + 1, hi)
    }
}

/// A bar whose rise and fall both reach the target is labelled `Chaos`,
/// never `Bull` or `Bear`.
pub proof fn lemma_chaos_precedence(
    rising: Seq<i64>,
    falling: Seq<i64>,
    first_open: Seq<u32>,
    target: Ratio,
    i: int,
)
    requires
        rising_reached(rising[i] as int, first_open[i] as int, target),
        falling_reached(falling[i] as int, first_open[i] as int, target),
    ensures
        trend_at(rising, falling, first_open, target, i) == Trend::Chaos,
{
}

/// Bars that share a group id share their forecast, and it is the label of
/// the first bar with that id whose label is not `Unknown`, or `Unknown`
/// where all their labels are.
///
/// The bar `k` that is returned is that first bar; where there is none, it
/// is the bar after the last one with that id.
pub proof fn lemma_forecast_propagation(group: Seq<usize>, trend: Seq<Trend>, i: int) -> (k: int)
    requires
        nondecreasing(group),
        trend.len() == group.len(),
        0 <= i < group.len(),
    ensures
        forall|j: int|
            0 <= j < group.len() && group[j] == group[i] ==> forecast_at(group, trend, j)
                == forecast_at(group, trend, i),
        0 <= k <= group.len(),
        forall|j: int| 0 <= j < k && group[j] == group[i] ==> trend[j] == Trend::Unknown,
        k < group.len() ==> group[k] == group[i] && trend[k] != Trend::Unknown && forecast_at(
            group,
            trend,
            i,
        ) == trend[k],
        k == group.len() || group[k] != group[i] ==> forecast_at(group, trend, i) == Trend::Unknown
            && forall|j: int| 0 <= j < group.len() && group[j] == group[i] ==> trend[j] == Trend::Unknown,
{
    let lo = run_start(group, i);
    let hi = run_end(group, i);
    lemma_run_shape(group, i);
    assert forall|j: int| 0 <= j < group.len() implies (group[j] == group[i] <==> lo <= j < hi) by {
        lemma_run_is_partition(group, i, j);
    }
    assert forall|j: int| 0 <= j < group.len() && group[j] == group[i] implies forecast_at(
        group,
        trend,
        j,
    ) == forecast_at(group, trend, i) by {
        lemma_run_is_partition(group, i, j);
    }
    let k = lemma_first_decisive_is_first(trend, lo, hi);
    if k < hi {
        k
    } else {
        group.len() as int
    }
}

} // verus!
