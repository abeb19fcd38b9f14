//! Episode segmentation: a running count of breakout signals.

use vstd::prelude::*;

verus! {

/// The flag of bar `i`; a bar that the column does not reach is unflagged.
pub open spec fn flag_at(flags: Seq<bool>, i: int) -> bool {
    0 <= i < flags.len() && flags[i]
}

/// The breakout signal: abnormal volume together with exactly one band touched.
pub open spec fn is_trigger(abnormal_volume: bool, upper_touched: bool, lower_touched: bool) -> bool {
    abnormal_volume && (upper_touched != lower_touched)
}

/// Whether bar `i` carries the breakout signal.
pub open spec fn trigger_at(
    abnormal_volume: Seq<bool>,
    upper_touched: Seq<bool>,
    lower_touched: Seq<bool>,
    i: int,
) -> bool {
    is_trigger(flag_at(abnormal_volume, i), flag_at(upper_touched, i), flag_at(lower_touched, i))
}

/// The number of bars among the first `n` that carry the breakout signal.
pub open spec fn trigger_count(
    abnormal_volume: Seq<bool>,
    upper_touched: Seq<bool>,
    lower_touched: Seq<bool>,
    n: int,
) -> int
    decreases n,
{
    if n <= 0 {
        0
    } else {
        trigger_count(abnormal_volume, upper_touched, lower_touched, n - 1) + if trigger_at(
            abnormal_volume,
            upper_touched,
            lower_touched,
            n - 1,
        ) {
            1int
        } else {
            0int
        }
    }
}

/// The group of bar `i`: the number of signals on the bars `0 ..= i`.
pub open spec fn group_at(
    abnormal_volume: Seq<bool>,
    upper_touched: Seq<bool>,
    lower_touched: Seq<bool>,
    i: int,
) -> int {
    trigger_count(abnormal_volume, upper_touched, lower_touched, i + 1)
}

/// Whether a column of group ids never decreases.
pub open spec fn nondecreasing(group: Seq<usize>) -> bool {
    forall|i: int, j: int| 0 <= i <= j < group.len() ==> group[i] <= group[j]
}

/// Whether the three flags make a breakout signal.
pub fn trigger(abnormal_volume: bool, upper_touched: bool, lower_touched: bool) -> (t: bool)
    ensures
        t == is_trigger(abnormal_volume, upper_touched, lower_touched),
{
    abnormal_volume && (upper_touched != lower_touched)
}

/// The count of signals never exceeds the number of bars counted, and never falls.
pub proof fn lemma_trigger_count_bounds(
    abnormal_volume: Seq<bool>,
    upper_touched: Seq<bool>,
    lower_touched: Seq<bool>,
    m: int,
    n: int,
)
    requires
        0 <= m <= n,
    ensures
        0 <= trigger_count(abnormal_volume, upper_touched, lower_touched, m) <= trigger_count(
            abnormal_volume,
            upper_touched,
            lower_touched,
            n,
        ) <= n,
        trigger_count(abnormal_volume, upper_touched, lower_touched, n) - trigger_count(
            abnormal_volume,
            upper_touched,
            lower_touched,
            m,
        ) <= n - m,
    decreases n,
{
    if n > m {
        lemma_trigger_count_bounds(abnormal_volume, upper_touched, lower_touched, m, n - 1);
    } else if n > 0 {
        lemma_trigger_count_bounds(abnormal_volume, upper_touched, lower_touched, m - 1, n - 1);
    }
}

/// Group ids grow by one on each signal and never otherwise.
///
/// The first bar is in group 1 if it carries a signal and in group 0 if not.
/// From bar `i` to bar `i + 1` the id stays, or grows by one where bar
/// `i + 1` carries a signal; so where the two bars agree on the signal, the
/// step is the signal of bar `i`. Ids never decrease.
pub proof fn lemma_group_step(
    abnormal_volume: Seq<bool>,
    upper_touched: Seq<bool>,
    lower_touched: Seq<bool>,
    i: int,
)
    requires
        0 <= i,
    ensures
        group_at(abnormal_volume, upper_touched, lower_touched, 0) == if trigger_at(
            abnormal_volume,
            upper_touched,
            lower_touched,
            0,
        ) {
            1int
        } else {
            0int
        },
        group_at(abnormal_volume, upper_touched, lower_touched, i + 1) == group_at(
            abnormal_volume,
            upper_touched,
            lower_touched,
            i,
        ) + if trigger_at(abnormal_volume, upper_touched, lower_touched, i + 1) {
            1int
        } else {
            0int
        },
        trigger_at(abnormal_volume, upper_touched, lower_touched, i) == trigger_at(
            abnormal_volume,
            upper_touched,
            lower_touched,
            i + 1,
        ) ==> group_at(abnormal_volume, upper_touched, lower_touched, i + 1) == group_at(
            abnormal_volume,
            upper_touched,
            lower_touched,
            i,
        ) + if trigger_at(abnormal_volume, upper_touched, lower_touched, i) {
            1int
        } else {
            0int
        },
        group_at(abnormal_volume, upper_touched, lower_touched, i) <= group_at(
            abnormal_volume,
            upper_touched,
            lower_touched,
            i + 1,
        ),
{
    reveal_with_fuel(trigger_count, 2);
}

/// Group ids never decrease from an earlier bar to a later one.
pub proof fn lemma_group_monotonic(
    abnormal_volume: Seq<bool>,
    upper_touched: Seq<bool>,
    lower_touched: Seq<bool>,
    i: int,
    j: int,
)
    requires
        0 <= i <= j,
    ensures
        group_at(abnormal_volume, upper_touched, lower_touched, i) <= group_at(
            abnormal_volume,
            upper_touched,
            lower_touched,
            j,
        ),
{
    lemma_trigger_count_bounds(abnormal_volume, upper_touched, lower_touched, i + 1, j + 1);
}

/// Assigns each bar its group: the number of breakout signals up to and
/// including that bar. Bars before the first signal are in group 0, and each
/// signal opens a new group, also where signals follow one another.
///
/// There is one id for each bar of `abnormal_volume`; a band column that
/// ends earlier counts as untouched from there on.
pub fn group(abnormal_volume: &Vec<bool>, upper_touched: &Vec<bool>, lower_touched: &Vec<bool>) -> (ids:
    Vec<usize>)
    ensures
        ids.len() == abnormal_volume.len(),
        forall|i: int|
            0 <= i < ids.len() ==> #[trigger] ids[i] == group_at(
                abnormal_volume@,
                upper_touched@,
                lower_touched@,
                i,
            ),
        nondecreasing(ids@),
{
    let n = abnormal_volume.len();
    let mut ids: Vec<usize> = Vec::new();
    let mut count: usize = 0;
    let mut i: usize = 0;
    while i < n
        invariant
            n == abnormal_volume.len(),
            0 <= i <= n,
            ids.len() == i,
            count == trigger_count(abnormal_volume@, upper_touched@, lower_touched@, i as int),
            count <= i,
            forall|k: int|
                0 <= k < i ==> #[trigger] ids[k] == group_at(
                    abnormal_volume@,
                    upper_touched@,
                    lower_touched@,
                    k,
                ),
        decreases n - i,
    {
        let up = i < upper_touched.len() && upper_touched[i];
        let low = i < lower_touched.len() && lower_touched[i];
        if trigger(abnormal_volume[i], up, low) {
            count = count + 1;
        }
        ids.push(count);
        i = i + 1;
    }
    proof {
        assert forall|a: int, b: int| 0 <= a <= b < ids.len() implies ids[a] <= ids[b] by {
            lemma_group_monotonic(abnormal_volume@, upper_touched@, lower_touched@, a, b);
        }
    }
    ids
}

} // verus!
