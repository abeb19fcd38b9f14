//! The whole transformation, from bars to labelled episodes.

use vstd::prelude::*;
use crate::band::{
    abnormal,
    lower_bound_touched,
    touched_above_at,
    touched_below_at,
    upper_bound_touched,
};
use crate::candle::{column, column_of, open_times, timestamp, Candle, Field};
use crate::config::{Ratio, RollingWindowConfig};
use crate::episode::{lemma_first_extreme_unique, run_end, run_start, stat_over_group, GroupStats};
use crate::rolling::{lemma_stat_view_injective, rolling_stats, stat_at, stat_view, WindowStat};
use crate::segment::{group, group_at, lemma_group_monotonic, nondecreasing};
use crate::trend::{forecast_at, trend_forcast_over_group, trend_at, trend_from_base, Trend};

verus! {

/// The labelled table: the columns of the bars and every column derived
/// from them, one entry for each bar.
#[derive(Debug)]
pub struct Table {
    /// Opening time of the bar, in milliseconds.
    pub timestamp: Vec<i64>,
    pub open: Vec<u32>,
    pub high: Vec<u32>,
    pub low: Vec<u32>,
    pub close: Vec<u32>,
    pub volume: Vec<u32>,
    /// Statistic of the volumes before the bar: its mean and deviation.
    pub volume_stats: Vec<Option<WindowStat>>,
    /// Statistic of the highs before the bar.
    pub high_stats: Vec<Option<WindowStat>>,
    /// Statistic of the lows before the bar.
    pub low_stats: Vec<Option<WindowStat>>,
    /// The volume before the bar reached its upper band.
    pub abnormal_volume: Vec<bool>,
    /// The high before the bar reached its upper band.
    pub upper_touched: Vec<bool>,
    /// The low before the bar reached its lower band.
    pub lower_touched: Vec<bool>,
    /// The number of breakout signals up to and including the bar.
    pub group: Vec<usize>,
    /// The figures of the bar's episode.
    pub episodes: GroupStats,
    /// The label of the bar.
    pub trend_from_base: Vec<Trend>,
    /// The label that the bar's episode first reached.
    pub trend_forecast: Vec<Trend>,
}

/// Whether `stats` holds the trailing statistics of `column`.
pub open spec fn are_stats_of(
    stats: Seq<Option<WindowStat>>,
    column: Seq<u32>,
    window: RollingWindowConfig,
) -> bool {
    &&& stats.len() == column.len()
    &&& forall|i: int|
        0 <= i < column.len() ==> stat_view(#[trigger] stats[i]) == stat_at(
            column,
            window.size(),
            window.least(),
            i,
        )
}

impl Table {
    /// Whether this is the table that `candles` give under `sigma`,
    /// `target_pnl` and `window`: each column is what its stage makes of the
    /// columns before it.
    pub open spec fn labels(
        self,
        candles: Seq<Candle>,
        sigma: Ratio,
        target_pnl: Ratio,
        window: RollingWindowConfig,
    ) -> bool {
        let n = candles.len();
        &&& self.timestamp@ == open_times(candles)
        &&& self.open@ == column_of(candles, Field::Open)
        &&& self.high@ == column_of(candles, Field::High)
        &&& self.low@ == column_of(candles, Field::Low)
        &&& self.close@ == column_of(candles, Field::Close)
        &&& self.volume@ == column_of(candles, Field::Volume)
        &&& are_stats_of(self.volume_stats@, self.volume@, window)
        &&& are_stats_of(self.high_stats@, self.high@, window)
        &&& are_stats_of(self.low_stats@, self.low@, window)
        &&& self.abnormal_volume.len() == n
        &&& self.upper_touched.len() == n
        &&& self.lower_touched.len() == n
        &&& forall|i: int|
            0 <= i < n ==> #[trigger] self.abnormal_volume[i] == touched_above_at(
                self.volume@,
                self.volume_stats@,
                sigma,
                i,
            )
        &&& forall|i: int|
            0 <= i < n ==> #[trigger] self.upper_touched[i] == touched_above_at(
                self.high@,
                self.high_stats@,
                sigma,
                i,
            )
        &&& forall|i: int|
            0 <= i < n ==> #[trigger] self.lower_touched[i] == touched_below_at(
                self.low@,
                self.low_stats@,
                sigma,
                i,
            )
        &&& self.group.len() == n
        &&& forall|i: int|
            0 <= i < n ==> #[trigger] self.group[i] == group_at(
                self.abnormal_volume@,
                self.upper_touched@,
                self.lower_touched@,
                i,
            )
        &&& self.episodes.describes(self.group@, self.open@, self.high@, self.low@)
        &&& self.trend_from_base.len() == n
        &&& forall|i: int|
            0 <= i < n ==> #[trigger] self.trend_from_base[i] == trend_at(
                self.episodes.rising@,
                self.episodes.falling@,
                self.episodes.first_open@,
                target_pnl,
                i,
            )
        &&& self.trend_forecast.len() == n
        &&& forall|i: int|
            0 <= i < n ==> #[trigger] self.trend_forecast[i] == forecast_at(
                self.group@,
                self.trend_from_base@,
                i,
            )
    }

    /// Whether two tables hold the same entries in every column.
    pub open spec fn same_as(self, other: Table) -> bool {
        &&& self.timestamp@ == other.timestamp@
        &&& self.open@ == other.open@
        &&& self.high@ == other.high@
        &&& self.low@ == other.low@
        &&& self.close@ == other.close@
        &&& self.volume@ == other.volume@
        &&& self.volume_stats@ == other.volume_stats@
        &&& self.high_stats@ == other.high_stats@
        &&& self.low_stats@ == other.low_stats@
        &&& self.abnormal_volume@ == other.abnormal_volume@
        &&& self.upper_touched@ == other.upper_touched@
        &&& self.lower_touched@ == other.lower_touched@
        &&& self.group@ == other.group@
        &&& self.episodes.period@ == other.episodes.period@
        &&& self.episodes.max_high_in_group@ == other.episodes.max_high_in_group@
        &&& self.episodes.offset_to_max_high@ == other.episodes.offset_to_max_high@
        &&& self.episodes.min_low_in_group@ == other.episodes.min_low_in_group@
        &&& self.episodes.offset_to_min_low@ == other.episodes.offset_to_min_low@
        &&& self.episodes.first_open@ == other.episodes.first_open@
        &&& self.episodes.rising@ == other.episodes.rising@
        &&& self.episodes.falling@ == other.episodes.falling@
        &&& self.trend_from_base@ == other.trend_from_base@
        &&& self.trend_forecast@ == other.trend_forecast@
    }
}

/// Labels a series of bars.
///
/// The table keeps every bar, in order. Each bar gets the statistics of the
/// `window` before it for volume, high and low; the three band flags under
/// `sigma`; its group; the figures of its episode; its label under
/// `target_pnl`; and the forecast of its episode.
pub fn aggregate(
    candles: &Vec<Candle>,
    sigma: Ratio,
    target_pnl: Ratio,
    window: RollingWindowConfig,
) -> (table: Table)
    ensures
        table.labels(candles@, sigma, target_pnl, window),
        nondecreasing(table.group@),
{
    let times = timestamp(candles);
    let open = column(candles, Field::Open);
    let high = column(candles, Field::High);
    let low = column(candles, Field::Low);
    let close = column(candles, Field::Close);
    let volume = column(candles, Field::Volume);
    let volume_stats = rolling_stats(&volume, window);
    let high_stats = rolling_stats(&high, window);
    let low_stats = rolling_stats(&low, window);
    let abnormal_volume = abnormal(&volume, &volume_stats, sigma);
    let upper_touched = upper_bound_touched(&high, &high_stats, sigma);
    let lower_touched = lower_bound_touched(&low, &low_stats, sigma);
    let ids = group(&abnormal_volume, &upper_touched, &lower_touched);
    let episodes = stat_over_group(&ids, &open, &high, &low);
    let trend = trend_from_base(
        &episodes.rising,
        &episodes.falling,
        &episodes.first_open,
        target_pnl,
    );
    let forecast = trend_forcast_over_group(&ids, &trend);
    Table {
        timestamp: times,
        open,
        high,
        low,
        close,
        volume,
        volume_stats,
        high_stats,
        low_stats,
        abnormal_volume,
        upper_touched,
        lower_touched,
        group: ids,
        episodes,
        trend_from_base: trend,
        trend_forecast: forecast,
    }
}

/// The groups of a labelled table never decrease, so each of its episodes
/// holds exactly the bars that share a group id.
pub proof fn lemma_table_groups_nondecreasing(
    table: Table,
    candles: Seq<Candle>,
    sigma: Ratio,
    target_pnl: Ratio,
    window: RollingWindowConfig,
)
    requires
        table.labels(candles, sigma, target_pnl, window),
    ensures
        nondecreasing(table.group@),
{
    assert forall|i: int, j: int| 0 <= i <= j < table.group.len() implies table.group[i]
        <= table.group[j] by {
        lemma_group_monotonic(
            table.abnormal_volume@,
            table.upper_touched@,
            table.lower_touched@,
            i,
            j,
        );
    }
}

proof fn lemma_stats_determined(
    a: Seq<Option<WindowStat>>,
    b: Seq<Option<WindowStat>>,
    column: Seq<u32>,
    window: RollingWindowConfig,
)
    requires
        are_stats_of(a, column, window),
        are_stats_of(b, column, window),
    ensures
        a == b,
{
    assert forall|i: int| 0 <= i < a.len() implies a[i] == b[i] by {
        lemma_stat_view_injective(a[i], b[i]);
    }
    assert(a =~= b);
}

proof fn lemma_episodes_determined(
    a: GroupStats,
    b: GroupStats,
    group: Seq<usize>,
    open: Seq<u32>,
    high: Seq<u32>,
    low: Seq<u32>,
)
    requires
        a.describes(group, open, high, low),
        b.describes(group, open, high, low),
    ensures
        a.period@ == b.period@,
        a.max_high_in_group@ == b.max_high_in_group@,
        a.offset_to_max_high@ == b.offset_to_max_high@,
        a.min_low_in_group@ == b.min_low_in_group@,
        a.offset_to_min_low@ == b.offset_to_min_low@,
        a.first_open@ == b.first_open@,
        a.rising@ == b.rising@,
        a.falling@ == b.falling@,
{
    assert forall|i: int| 0 <= i < group.len() implies a.period[i] == b.period[i]
        && a.max_high_in_group[i] == b.max_high_in_group[i] && a.offset_to_max_high[i]
        == b.offset_to_max_high[i] && a.min_low_in_group[i] == b.min_low_in_group[i]
        && a.offset_to_min_low[i] == b.offset_to_min_low[i] && a.first_open[i]
        == b.first_open[i] && a.rising[i] == b.rising[i] && a.falling[i] == b.falling[i] by {
        let lo = run_start(group, i);
        let hi = run_end(group, i);
        assert(a.describes_row(group, open, high, low, i));
        assert(b.describes_row(group, open, high, low, i));
        lemma_first_extreme_unique(
            high,
            low,
            lo,
            hi,
            lo + a.offset_to_max_high[i],
            lo + b.offset_to_max_high[i],
            lo + a.offset_to_min_low[i],
            lo + b.offset_to_min_low[i],
        );
    }
    assert(a.period@ =~= b.period@);
    assert(a.max_high_in_group@ =~= b.max_high_in_group@);
    assert(a.offset_to_max_high@ =~= b.offset_to_max_high@);
    assert(a.min_low_in_group@ =~= b.min_low_in_group@);
    assert(a.offset_to_min_low@ =~= b.offset_to_min_low@);
    assert(a.first_open@ =~= b.first_open@);
    assert(a.rising@ =~= b.rising@);
    assert(a.falling@ =~= b.falling@);
}

/// The same bars under the same settings give the same table: two tables
/// that both label `candles` agree in every entry of every column.
pub proof fn lemma_aggregate_deterministic(
    first: Table,
    second: Table,
    candles: Seq<Candle>,
    sigma: Ratio,
    target_pnl: Ratio,
    window: RollingWindowConfig,
)
    requires
        first.labels(candles, sigma, target_pnl, window),
        second.labels(candles, sigma, target_pnl, window),
    ensures
        first.same_as(second),
{
    lemma_stats_determined(first.volume_stats@, second.volume_stats@, first.volume@, window);
    lemma_stats_determined(first.high_stats@, second.high_stats@, first.high@, window);
    lemma_stats_determined(first.low_stats@, second.low_stats@, first.low@, window);
    assert(first.abnormal_volume@ =~= second.abnormal_volume@);
    assert(first.upper_touched@ =~= second.upper_touched@);
    assert(first.lower_touched@ =~= second.lower_touched@);
    assert(first.group@ =~= second.group@);
    lemma_episodes_determined(
        first.episodes,
        second.episodes,
        first.group@,
        first.open@,
        first.high@,
        first.low@,
    );
    assert(first.trend_from_base@ =~= second.trend_from_base@);
    assert(first.trend_forecast@ =~= second.trend_forecast@);
}

} // verus!
