//! Per-episode aggregation.
//!
//! An episode is a maximal run of consecutive bars with one group id. Each
//! bar gets the figures of its own episode: its length, its highest high and
//! lowest low with their places, and its opening price. It also gets its own
//! excursions from that price: as a share of the price the high rose by
//! `rising / first_open` and the low fell to `falling / first_open`, which
//! is `high / first_open - 1` and `low / first_open - 1`.

use vstd::prelude::*;
use crate::segment::nondecreasing;

verus! {

/// The first bar of the episode of bar `i`.
pub open spec fn run_start(group: Seq<usize>, i: int) -> int
    decreases i,
{
    if i <= 0 || group[i - 1] != group[i] {
        i
    } else {
        run_start(group, i - 1)
    }
}

/// The bar after the last bar of the episode of bar `i`.
pub open spec fn run_end(group: Seq<usize>, i: int) -> int
    decreases group.len() - i,
{
    if i + 1 >= group.len() || group[i + 1] != group[i] {
        i + 1
    } else {
        run_end(group, i + 1)
    }
}

/// Whether `k` is the first place in `s[lo..hi]` that holds its maximum.
pub open spec fn is_first_max(s: Seq<u32>, lo: int, hi: int, k: int) -> bool {
    &&& lo <= k < hi
    &&& forall|j: int| lo <= j < hi ==> s[j] <= s[k]
    &&& forall|j: int| lo <= j < k ==> s[j] < s[k]
}

/// Whether `k` is the first place in `s[lo..hi]` that holds its minimum.
pub open spec fn is_first_min(s: Seq<u32>, lo: int, hi: int, k: int) -> bool {
    &&& lo <= k < hi
    &&& forall|j: int| lo <= j < hi ==> s[j] >= s[k]
    &&& forall|j: int| lo <= j < k ==> s[j] > s[k]
}

/// The figures of the episodes, one entry for each bar.
#[derive(Debug)]
pub struct GroupStats {
    /// The number of bars in the episode.
    pub period: Vec<usize>,
    /// The highest high of the episode.
    pub max_high_in_group: Vec<u32>,
    /// How many bars after the episode's first bar that high first occurs.
    pub offset_to_max_high: Vec<usize>,
    /// The lowest low of the episode.
    pub min_low_in_group: Vec<u32>,
    /// How many bars after the episode's first bar that low first occurs.
    pub offset_to_min_low: Vec<usize>,
    /// The open of the episode's first bar, against which excursions are measured.
    pub first_open: Vec<u32>,
    /// The bar's high less the episode's first open.
    pub rising: Vec<i64>,
    /// The bar's low less the episode's first open.
    pub falling: Vec<i64>,
}

impl GroupStats {
    /// Whether every column has `n` entries.
    pub open spec fn has_len(self, n: nat) -> bool {
        &&& self.period.len() == n
        &&& self.max_high_in_group.len() == n
        &&& self.offset_to_max_high.len() == n
        &&& self.min_low_in_group.len() == n
        &&& self.offset_to_min_low.len() == n
        &&& self.first_open.len() == n
        &&& self.rising.len() == n
        &&& self.falling.len() == n
    }

    /// Whether entry `i` holds the figures of the episode of bar `i`.
    pub open spec fn describes_row(
        self,
        group: Seq<usize>,
        open: Seq<u32>,
        high: Seq<u32>,
        low: Seq<u32>,
        i: int,
    ) -> bool {
        let lo = run_start(group, i);
        let hi = run_end(group, i);
        &&& self.period[i] == hi - lo
        &&& is_first_max(high, lo, hi, lo + self.offset_to_max_high[i])
        &&& self.max_high_in_group[i] == high[lo + self.offset_to_max_high[i]]
        &&& is_first_min(low, lo, hi, lo + self.offset_to_min_low[i])
        &&& self.min_low_in_group[i] == low[lo + self.offset_to_min_low[i]]
        &&& self.first_open[i] == open[lo]
        &&& self.rising[i] == high[i] - open[lo]
        &&& self.falling[i] == low[i] - open[lo]
    }

    /// Whether these are the figures of the episodes of `group`.
    pub open spec fn describes(
        self,
        group: Seq<usize>,
        open: Seq<u32>,
        high: Seq<u32>,
        low: Seq<u32>,
    ) -> bool {
        &&& self.has_len(group.len())
        &&& forall|i: int|
            0 <= i < group.len() ==> #[trigger] self.describes_row(group, open, high, low, i)
    }
}

/// An episode holds its bar, lies within the table, has one id throughout,
/// and the bars on either side of it have another.
pub proof fn lemma_run_shape(group: Seq<usize>, i: int)
    requires
        0 <= i < group.len(),
    ensures
        0 <= run_start(group, i) <= i < run_end(group, i) <= group.len(),
        forall|j: int| run_start(group, i) <= j < run_end(group, i) ==> group[j] == group[i],
        run_start(group, i) > 0 ==> group[run_start(group, i) - 1] != group[i],
        run_end(group, i) < group.len() ==> group[run_end(group, i)] != group[i],
{
    lemma_run_start_shape(group, i);
    lemma_run_end_shape(group, i);
}

proof fn lemma_run_start_shape(group: Seq<usize>, i: int)
    requires
        0 <= i < group.len(),
    ensures
        0 <= run_start(group, i) <= i,
        forall|j: int| run_start(group, i) <= j <= i ==> group[j] == group[i],
        run_start(group, i) > 0 ==> group[run_start(group, i) - 1] != group[i],
    decreases i,
{
    if i > 0 && group[i - 1] == group[i] {
        lemma_run_start_shape(group, i - 1);
    }
}

proof fn lemma_run_end_shape(group: Seq<usize>, i: int)
    requires
        0 <= i < group.len(),
    ensures
        i < run_end(group, i) <= group.len(),
        forall|j: int| i <= j < run_end(group, i) ==> group[j] == group[i],
        run_end(group, i) < group.len() ==> group[run_end(group, i)] != group[i],
    decreases group.len() - i,
{
    if i + 1 < group.len() && group[i + 1] == group[i] {
        lemma_run_end_shape(group, i + 1);
    }
}

/// A stretch of one id with another id, or the table's edge, on either side
/// is the episode of each of its bars.
pub proof fn lemma_run_is(group: Seq<usize>, lo: int, hi: int, i: int)
    requires
        0 <= lo <= i < hi <= group.len(),
        forall|j: int| lo <= j < hi ==> group[j] == group[lo],
        lo > 0 ==> group[lo - 1] != group[lo],
        hi < group.len() ==> group[hi] != group[lo],
    ensures
        run_start(group, i) == lo,
        run_end(group, i) == hi,
{
    lemma_run_start_is(group, lo, i);
    lemma_run_end_is(group, hi, i);
}

proof fn lemma_run_start_is(group: Seq<usize>, lo: int, i: int)
    requires
        0 <= lo <= i < group.len(),
        forall|j: int| lo <= j <= i ==> group[j] == group[lo],
        lo > 0 ==> group[lo - 1] != group[lo],
    ensures
        run_start(group, i) == lo,
    decreases i - lo,
{
    if i > lo {
        lemma_run_start_is(group, lo, i - 1);
    }
}

proof fn lemma_run_end_is(group: Seq<usize>, hi: int, i: int)
    requires
        0 <= i < hi <= group.len(),
        forall|j: int| i <= j < hi ==> group[j] == group[i],
        hi < group.len() ==> group[hi] != group[i],
    ensures
        run_end(group, i) == hi,
    decreases hi - i,
{
    if i + 1 < hi {
        lemma_run_end_is(group, hi, i + 1);
    }
}

/// Where group ids never decrease, the episode of a bar holds exactly the
/// bars that share its id.
pub proof fn lemma_run_is_partition(group: Seq<usize>, i: int, j: int)
    requires
        nondecreasing(group),
        0 <= i < group.len(),
        0 <= j < group.len(),
    ensures
        group[j] == group[i] <==> run_start(group, i) <= j < run_end(group, i),
        group[j] == group[i] ==> run_start(group, j) == run_start(group, i) && run_end(group, j)
            == run_end(group, i),
{
    lemma_run_shape(group, i);
    let lo = run_start(group, i);
    let hi = run_end(group, i);
    if lo <= j < hi {
        lemma_run_is(group, lo, hi, j);
    } else if j < lo {
        assert(group[j] <= group[lo - 1] <= group[i]);
    } else {
        assert(group[i] <= group[hi] <= group[j]);
    }
}

/// Where group ids never decrease, the figures of a bar are those of the
/// bars that share its id.
///
/// `first` is the first bar with the id of bar `i`; the bars with that id
/// are `first .. first + period[i]`. No bar with that id has a higher high
/// than `max_high_in_group[i]`, the bar `offset_to_max_high[i]` places after
/// `first` has that id and that high, and every bar with that id before it
/// has a lower high. The same holds of the lows, turned round.
/// `first_open[i]` is the open of `first`, and the excursions of bar `i`
/// are measured from it.
pub proof fn lemma_partition_consistency(
    stats: GroupStats,
    group: Seq<usize>,
    open: Seq<u32>,
    high: Seq<u32>,
    low: Seq<u32>,
    i: int,
) -> (first: int)
    requires
        nondecreasing(group),
        open.len() == group.len(),
        high.len() == group.len(),
        low.len() == group.len(),
        stats.describes(group, open, high, low),
        0 <= i < group.len(),
    ensures
        0 <= first <= i < first + stats.period[i] <= group.len(),
        forall|j: int|
            0 <= j < group.len() ==> (group[j] == group[i] <==> first <= j < first
                + stats.period[i]),
        forall|j: int|
            0 <= j < group.len() && group[j] == group[i] ==> high[j]
                <= stats.max_high_in_group[i] && low[j] >= stats.min_low_in_group[i],
        ({
            let top = first + stats.offset_to_max_high[i];
            &&& 0 <= top < group.len()
            &&& group[top] == group[i]
            &&& high[top] == stats.max_high_in_group[i]
            &&& forall|j: int|
                0 <= j < top && group[j] == group[i] ==> high[j] < stats.max_high_in_group[i]
        }),
        ({
            let bottom = first + stats.offset_to_min_low[i];
            &&& 0 <= bottom < group.len()
            &&& group[bottom] == group[i]
            &&& low[bottom] == stats.min_low_in_group[i]
            &&& forall|j: int|
                0 <= j < bottom && group[j] == group[i] ==> low[j] > stats.min_low_in_group[i]
        }),
        stats.first_open[i] == open[first],
        stats.rising[i] == high[i] - open[first],
        stats.falling[i] == low[i] - open[first],
        forall|j: int|
            0 <= j < group.len() && group[j] == group[i] ==> stats.period[j] == stats.period[i]
                && stats.max_high_in_group[j] == stats.max_high_in_group[i]
                && stats.offset_to_max_high[j] == stats.offset_to_max_high[i]
                && stats.min_low_in_group[j] == stats.min_low_in_group[i]
                && stats.offset_to_min_low[j] == stats.offset_to_min_low[i] && stats.first_open[j]
                == stats.first_open[i],
{
    let lo = run_start(group, i);
    let hi = run_end(group, i);
    lemma_run_shape(group, i);
    assert(stats.describes_row(group, open, high, low, i));
    assert forall|j: int| 0 <= j < group.len() implies (group[j] == group[i] <==> lo <= j < hi) by {
        lemma_run_is_partition(group, i, j);
    }
    assert forall|j: int| 0 <= j < group.len() && group[j] == group[i] implies stats.period[j]
        == stats.period[i] && stats.max_high_in_group[j] == stats.max_high_in_group[i]
        && stats.offset_to_max_high[j] == stats.offset_to_max_high[i] && stats.min_low_in_group[j]
        == stats.min_low_in_group[i] && stats.offset_to_min_low[j] == stats.offset_to_min_low[i]
        && stats.first_open[j] == stats.first_open[i] by {
        lemma_run_is_partition(group, i, j);
        assert(stats.describes_row(group, open, high, low, j));
        lemma_first_extreme_unique(
            high,
            low,
            lo,
            hi,
            lo + stats.offset_to_max_high[i],
            lo + stats.offset_to_max_high[j],
            lo + stats.offset_to_min_low[i],
            lo + stats.offset_to_min_low[j],
        );
    }
    lo
}

/// A stretch has one first maximum and one first minimum.
pub proof fn lemma_first_extreme_unique(
    high: Seq<u32>,
    low: Seq<u32>,
    lo: int,
    hi: int,
    top_a: int,
    top_b: int,
    bottom_a: int,
    bottom_b: int,
)
    requires
        is_first_max(high, lo, hi, top_a),
        is_first_max(high, lo, hi, top_b),
        is_first_min(low, lo, hi, bottom_a),
        is_first_min(low, lo, hi, bottom_b),
    ensures
        top_a == top_b,
        bottom_a == bottom_b,
{
    if top_a < top_b {
        assert(high[top_a] < high[top_b]);
    } else if top_b < top_a {
        assert(high[top_b] < high[top_a]);
    }
    if bottom_a < bottom_b {
        assert(low[bottom_a] > low[bottom_b]);
    } else if bottom_b < bottom_a {
        assert(low[bottom_b] > low[bottom_a]);
    }
}

/// Computes the figures of every episode and hands them to each of its bars.
///
/// Bar `i` gets the length of its episode, the episode's highest high and
/// lowest low, how far after the episode's first bar each of them first
/// occurs, the open of the episode's first bar, and how far its own high
/// and low lie from that open.
pub fn stat_over_group(group: &Vec<usize>, open: &Vec<u32>, high: &Vec<u32>, low: &Vec<u32>) -> (stats:
    GroupStats)
    requires
        open.len() == group.len(),
        high.len() == group.len(),
        low.len() == group.len(),
    ensures
        stats.describes(group@, open@, high@, low@),
{
    let n = group.len();
    let mut period: Vec<usize> = Vec::new();
    let mut max_high_in_group: Vec<u32> = Vec::new();
    let mut offset_to_max_high: Vec<usize> = Vec::new();
    let mut min_low_in_group: Vec<u32> = Vec::new();
    let mut offset_to_min_low: Vec<usize> = Vec::new();
    let mut first_open: Vec<u32> = Vec::new();
    let mut rising: Vec<i64> = Vec::new();
    let mut falling: Vec<i64> = Vec::new();
    let mut start: usize = 0;
    while start < n
        invariant
            n == group.len(),
            open.len() == n,
            high.len() == n,
            low.len() == n,
            0 <= start <= n,
            0 < start < n ==> group[start - 1] != group[start as int],
            period.len() == start,
            max_high_in_group.len() == start,
            offset_to_max_high.len() == start,
            min_low_in_group.len() == start,
            offset_to_min_low.len() == start,
            first_open.len() == start,
            rising.len() == start,
            falling.len() == start,
            forall|k: int|
                0 <= k < start ==> #[trigger] (GroupStats {
                    period,
                    max_high_in_group,
                    offset_to_max_high,
                    min_low_in_group,
                    offset_to_min_low,
                    first_open,
                    rising,
                    falling,
                }).describes_row(group@, open@, high@, low@, k),
        decreases n - start,
    {
        let id = group[start];
        let mut top: u32 = high[start];
        let mut top_at: usize = start;
        let mut bottom: u32 = low[start];
        let mut bottom_at: usize = start;
        let mut end: usize = start + 1;
        while end < n && group[end] == id
            invariant
                n == group.len(),
                high.len() == n,
                low.len() == n,
                start < end <= n,
                id == group[start as int],
                forall|j: int| start <= j < end ==> group[j] == id,
                is_first_max(high@, start as int, end as int, top_at as int),
                top == high[top_at as int],
                is_first_min(low@, start as int, end as int, bottom_at as int),
                bottom == low[bottom_at as int],
            decreases n - end,
        {
            if high[end] > top {
                top = high[end];
                top_at = end;
            }
            if low[end] < bottom {
                bottom = low[end];
                bottom_at = end;
            }
            end = end + 1;
        }
        let base = open[start];
        let mut k: usize = start;
        while k < end
            invariant
                n == group.len(),
                open.len() == n,
                high.len() == n,
                low.len() == n,
                0 <= start <= k <= end <= n,
                start < end,
                forall|j: int| start <= j < end ==> group[j] == group[start as int],
                start > 0 ==> group[start - 1] != group[start as int],
                end < n ==> group[end as int] != group[start as int],
                is_first_max(high@, start as int, end as int, top_at as int),
                top == high[top_at as int],
                is_first_min(low@, start as int, end as int, bottom_at as int),
                bottom == low[bottom_at as int],
                base == open[start as int],
                period.len() == k,
                max_high_in_group.len() == k,
                offset_to_max_high.len() == k,
                min_low_in_group.len() == k,
                offset_to_min_low.len() == k,
                first_open.len() == k,
                rising.len() == k,
                falling.len() == k,
                forall|r: int|
                    0 <= r < k ==> #[trigger] (GroupStats {
                        period,
                        max_high_in_group,
                        offset_to_max_high,
                        min_low_in_group,
                        offset_to_min_low,
                        first_open,
                        rising,
                        falling,
                    }).describes_row(group@, open@, high@, low@, r),
            decreases end - k,
        {
            let ghost before = GroupStats {
                period,
                max_high_in_group,
                offset_to_max_high,
                min_low_in_group,
                offset_to_min_low,
                first_open,
                rising,
                falling,
            };
            period.push(end - start);
            max_high_in_group.push(top);
            offset_to_max_high.push(top_at - start);
            min_low_in_group.push(bottom);
            offset_to_min_low.push(bottom_at - start);
            first_open.push(base);
            rising.push(high[k] as i64 - base as i64);
            falling.push(low[k] as i64 - base as i64);
            proof {
                let after = GroupStats {
                    period,
                    max_high_in_group,
                    offset_to_max_high,
                    min_low_in_group,
                    offset_to_min_low,
                    first_open,
                    rising,
                    falling,
                };
                lemma_run_is(group@, start as int, end as int, k as int);
                assert(after.describes_row(group@, open@, high@, low@, k as int));
                assert forall|r: int| 0 <= r < k implies #[trigger] after.describes_row(
                    group@,
                    open@,
                    high@,
                    low@,
                    r,
                ) by {
                    assert(before.describes_row(group@, open@, high@, low@, r));
                }
            }
            k = k + 1;
        }
        start = end;
    }
    GroupStats {
        period,
        max_high_in_group,
        offset_to_max_high,
        min_low_in_group,
        offset_to_min_low,
        first_open,
        rising,
        falling,
    }
}

} // verus!
