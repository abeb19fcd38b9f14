use load_data::candle::{is_chronological, timestamp, Candle, Field};
use load_data::config::{Ratio, RollingWindowConfig};
use load_data::pipeline::{aggregate, Table};
use load_data::trend::Trend;
use load_data::trend::Trend::{Bear, Bull, Unknown};

fn bar(open_time: i64, open: u32, high: u32, low: u32, close: u32, volume: u32) -> Candle {
    Candle { open_time, open, high, low, close, volume }
}

/// One month of bars of a quarter of an hour, from a fixed generator.
fn month(seed: u64, start_time: i64, bars: usize) -> Vec<Candle> {
    let mut state = seed;
    let mut price: i64 = 30000;
    let mut out = Vec::new();
    for i in 0..bars {
        state = state.wrapping_mul(6364136223846793005).wrapping_add(1442695040888963407);
        let r = (state >> 33) as i64;
        let step = r % 201 - 100;
        let burst = (r >> 8) % 17 == 0;
        let open = price;
        let close = (price + step * if burst { 8 } else { 1 }).max(1000);
        let high = open.max(close) + (r >> 16) % 50;
        let low = open.min(close) - (r >> 24) % 50;
        let volume = 500 + (r >> 4) % 300 + if burst { 4000 + (r >> 12) % 3000 } else { 0 };
        out.push(bar(
            start_time + i as i64 * 900_000,
            open as u32,
            high as u32,
            low as u32,
            close as u32,
            volume as u32,
        ));
        price = close;
    }
    out
}

fn quarter() -> Vec<Candle> {
    let mut candles = month(4, 1_648_771_200_000, 90);
    candles.extend(month(5, 1_651_363_200_000, 90));
    candles.extend(month(6, 1_654_041_600_000, 90));
    candles
}

fn repeat<T: Clone>(runs: &[(T, usize)]) -> Vec<T> {
    let mut out = Vec::new();
    for (value, times) in runs {
        for _ in 0..*times {
            out.push(value.clone());
        }
    }
    out
}

fn flagged(flags: &[bool]) -> Vec<usize> {
    (0..flags.len()).filter(|&i| flags[i]).collect()
}

fn assert_same(a: &Table, b: &Table) {
    assert_eq!(a.timestamp, b.timestamp);
    assert_eq!(a.open, b.open);
    assert_eq!(a.high, b.high);
    assert_eq!(a.low, b.low);
    assert_eq!(a.close, b.close);
    assert_eq!(a.volume, b.volume);
    assert_eq!(a.volume_stats, b.volume_stats);
    assert_eq!(a.high_stats, b.high_stats);
    assert_eq!(a.low_stats, b.low_stats);
    assert_eq!(a.abnormal_volume, b.abnormal_volume);
    assert_eq!(a.upper_touched, b.upper_touched);
    assert_eq!(a.lower_touched, b.lower_touched);
    assert_eq!(a.group, b.group);
    assert_eq!(a.episodes.period, b.episodes.period);
    assert_eq!(a.episodes.max_high_in_group, b.episodes.max_high_in_group);
    assert_eq!(a.episodes.offset_to_max_high, b.episodes.offset_to_max_high);
    assert_eq!(a.episodes.min_low_in_group, b.episodes.min_low_in_group);
    assert_eq!(a.episodes.offset_to_min_low, b.episodes.offset_to_min_low);
    assert_eq!(a.episodes.first_open, b.episodes.first_open);
    assert_eq!(a.episodes.rising, b.episodes.rising);
    assert_eq!(a.episodes.falling, b.episodes.falling);
    assert_eq!(a.trend_from_base, b.trend_from_base);
    assert_eq!(a.trend_forecast, b.trend_forecast);
}

#[test]
fn test_aggregate() {
    let candles = quarter();
    assert_eq!(candles.len(), 270);
    assert_eq!(candles[0], bar(1_648_771_200_000, 30000, 30018, 29992, 30004, 501));
    assert_eq!(candles[269], bar(1_654_121_700_000, 30698, 30701, 30619, 30661, 720));
    let sigma = Ratio::new(2, 1).unwrap();
    let target_pnl = Ratio::new(1, 100).unwrap();
    let duration = RollingWindowConfig::new(20, 20).unwrap();
    let table = aggregate(&candles, sigma, target_pnl, duration);

    assert_eq!(table.timestamp, candles.iter().map(|c| c.open_time).collect::<Vec<i64>>());
    assert_eq!(table.open, candles.iter().map(|c| c.open).collect::<Vec<u32>>());
    assert_eq!(table.high, candles.iter().map(|c| c.high).collect::<Vec<u32>>());
    assert_eq!(table.low, candles.iter().map(|c| c.low).collect::<Vec<u32>>());
    assert_eq!(table.close, candles.iter().map(|c| c.close).collect::<Vec<u32>>());
    assert_eq!(table.volume, candles.iter().map(|c| c.volume).collect::<Vec<u32>>());

    for i in 0..270 {
        assert_eq!(table.volume_stats[i].is_none(), i < 20);
        assert_eq!(table.high_stats[i].is_none(), i < 20);
        assert_eq!(table.low_stats[i].is_none(), i < 20);
    }
    let stat = table.volume_stats[20].unwrap();
    assert_eq!((stat.count(), stat.sum(), stat.sum_sq()), (20, 19680, 59954130));
    let stat = table.high_stats[269].unwrap();
    assert_eq!((stat.count(), stat.sum(), stat.sum_sq()), (20, 614697, 18892818903));
    let stat = table.low_stats[100].unwrap();
    assert_eq!((stat.count(), stat.sum(), stat.sum_sq()), (20, 597773, 17868540367));

    assert_eq!(
        flagged(&table.abnormal_volume),
        vec![26, 35, 59, 81, 83, 89, 106, 111, 114, 128, 142, 146, 216, 221, 229, 241]
    );
    assert_eq!(
        flagged(&table.upper_touched),
        vec![35, 36, 37, 83, 84, 85, 111, 112, 113, 114, 115, 116, 215, 241, 242]
    );
    assert_eq!(
        flagged(&table.lower_touched),
        vec![60, 61, 62, 146, 153, 162, 163, 201, 202, 221, 222, 223]
    );

    let lengths = [35usize, 48, 28, 3, 32, 75, 20, 29];
    let per_group = |values: &[u32]| -> Vec<u32> {
        repeat(&values.iter().cloned().zip(lengths.iter().cloned()).collect::<Vec<_>>())
    };
    let per_group_at = |values: &[usize]| -> Vec<usize> {
        repeat(&values.iter().cloned().zip(lengths.iter().cloned()).collect::<Vec<_>>())
    };
    assert_eq!(table.group, per_group_at(&[0, 1, 2, 3, 4, 5, 6, 7]));
    assert_eq!(table.episodes.period, per_group_at(&lengths));
    assert_eq!(
        table.episodes.max_high_in_group,
        per_group(&[30480, 30661, 30606, 30831, 30981, 30594, 30799, 31028])
    );
    assert_eq!(table.episodes.offset_to_max_high, per_group_at(&[34, 4, 27, 2, 1, 14, 19, 8]));
    assert_eq!(
        table.episodes.min_low_in_group,
        per_group(&[29483, 29079, 29866, 30583, 30328, 29484, 29387, 30559])
    );
    assert_eq!(table.episodes.offset_to_min_low, per_group_at(&[24, 40, 10, 0, 4, 74, 2, 15]));
    assert_eq!(
        table.episodes.first_open,
        per_group(&[30000, 30473, 29964, 30598, 30790, 30466, 29505, 30768])
    );

    assert_eq!(
        table.trend_from_base,
        repeat(&[
            (Unknown, 7),
            (Bear, 4),
            (Unknown, 3),
            (Bear, 12),
            (Unknown, 5),
            (Bear, 2),
            (Unknown, 1),
            (Bull, 1),
            (Unknown, 5),
            (Bear, 43),
            (Unknown, 5),
            (Bull, 2),
            (Unknown, 11),
            (Bull, 8),
            (Unknown, 1),
            (Bull, 1),
            (Unknown, 7),
            (Bear, 7),
            (Unknown, 20),
            (Bear, 1),
            (Unknown, 15),
            (Bear, 60),
            (Unknown, 7),
            (Bull, 13),
            (Unknown, 29),
        ])
    );
    let forecasts = [Bear, Bear, Bull, Unknown, Bear, Bear, Bull, Unknown];
    assert_eq!(
        table.trend_forecast,
        repeat(&forecasts.iter().cloned().zip(lengths.iter().cloned()).collect::<Vec<_>>())
    );
}

#[test]
fn twenty_five_bars_with_a_breakout_flagged_on_bar_21() {
    // Bars are counted from 1 here. Open is 100.00 throughout, in hundredths.
    // Bar 21 is the first with statistics, and the bar before it carries the
    // spike in volume and the high beyond its band, with no low below.
    let mut candles = Vec::new();
    for number in 1..=25 {
        let mut c = bar(number * 900_000, 10000, 10050, 9950, 10000, 1000);
        if number == 20 {
            c.high = 10200;
            c.low = 9960;
            c.volume = 5000;
        }
        if number == 21 {
            c.high = 10150;
        }
        candles.push(c);
    }
    let table = aggregate(
        &candles,
        Ratio::new(2, 1).unwrap(),
        Ratio::new(1, 100).unwrap(),
        RollingWindowConfig::new(20, 20).unwrap(),
    );
    let stat = table.volume_stats[20].unwrap();
    assert_eq!((stat.count(), stat.sum(), stat.sum_sq()), (20, 24000, 44000000));
    let stat = table.high_stats[20].unwrap();
    assert_eq!((stat.count(), stat.sum(), stat.sum_sq()), (20, 201150, 2023087500));
    let stat = table.low_stats[20].unwrap();
    assert_eq!((stat.count(), stat.sum(), stat.sum_sq()), (20, 199010, 1980249100));
    assert_eq!(flagged(&table.abnormal_volume), vec![20]);
    assert_eq!(flagged(&table.upper_touched), vec![20, 21]);
    assert_eq!(flagged(&table.lower_touched), Vec::<usize>::new());
    assert_eq!(table.group, repeat(&[(0, 20), (1, 5)]));
    // 101.50 / 100.00 - 1 >= 0.01
    assert_eq!(table.trend_from_base[20], Trend::Bull);
    assert_eq!(table.trend_from_base[21..].to_vec(), vec![Trend::Unknown; 4]);
    assert_eq!(table.trend_forecast[20..].to_vec(), vec![Trend::Bull; 5]);
    assert_eq!(table.episodes.period, repeat(&[(20, 20), (5, 5)]));
    assert_eq!(table.episodes.max_high_in_group, repeat(&[(10200, 20), (10150, 5)]));
    assert_eq!(table.episodes.offset_to_max_high, repeat(&[(19, 20), (0, 5)]));
    assert_eq!(table.episodes.min_low_in_group, vec![9950; 25]);
    assert_eq!(table.episodes.offset_to_min_low, vec![0; 25]);
    assert_eq!(table.episodes.first_open, vec![10000; 25]);
    assert_eq!(table.episodes.rising, repeat(&[(50, 19), (200, 1), (150, 1), (50, 4)]));
    assert_eq!(table.episodes.falling, repeat(&[(-50, 19), (-40, 1), (-50, 5)]));
}

#[test]
fn spike_is_flagged_on_the_bar_after_it() {
    // Rows are counted from 0 here. The spike is on row 20, so the flags
    // rise on row 21, and the constant rows before it touch both bands.
    let mut candles = Vec::new();
    for row in 0..25 {
        let mut c = bar(row * 900_000, 10000, 10050, 9950, 10000, 1000);
        if row == 20 {
            c.high = 10200;
            c.low = 9960;
            c.volume = 5000;
        }
        if row == 21 {
            c.high = 10200;
        }
        candles.push(c);
    }
    let table = aggregate(
        &candles,
        Ratio::new(2, 1).unwrap(),
        Ratio::new(1, 100).unwrap(),
        RollingWindowConfig::new(20, 20).unwrap(),
    );
    assert_eq!(flagged(&table.abnormal_volume), vec![20, 21]);
    assert_eq!(flagged(&table.upper_touched), vec![20, 21, 22]);
    assert_eq!(flagged(&table.lower_touched), vec![20]);
    assert_eq!(table.group, repeat(&[(0, 21), (1, 4)]));
    assert_eq!(table.trend_from_base, repeat(&[(Unknown, 20), (Bull, 2), (Unknown, 3)]));
    assert_eq!(table.trend_forecast, vec![Bull; 25]);
    assert_eq!(table.episodes.period, repeat(&[(21, 21), (4, 4)]));
    assert_eq!(table.episodes.offset_to_max_high, repeat(&[(20, 21), (0, 4)]));
}

#[test]
fn same_bars_and_settings_give_the_same_table() {
    let candles = quarter();
    let sigma = Ratio::new(3, 2).unwrap();
    let target = Ratio::new(1, 200).unwrap();
    let window = RollingWindowConfig::new(12, 5).unwrap();
    let first = aggregate(&candles, sigma, target, window);
    let second = aggregate(&candles.clone(), sigma, target, window);
    assert_same(&first, &second);
    assert_eq!(format!("{:?}", first), format!("{:?}", second));
}

#[test]
fn table_keeps_every_bar_in_order() {
    let candles = quarter();
    for n in [0usize, 1, 2, 19, 20, 21, 270] {
        let table = aggregate(
            &candles[..n].to_vec(),
            Ratio::new(2, 1).unwrap(),
            Ratio::new(1, 100).unwrap(),
            RollingWindowConfig::new(20, 20).unwrap(),
        );
        assert_eq!(table.timestamp.len(), n);
        assert_eq!(table.volume_stats.len(), n);
        assert_eq!(table.high_stats.len(), n);
        assert_eq!(table.low_stats.len(), n);
        assert_eq!(table.abnormal_volume.len(), n);
        assert_eq!(table.upper_touched.len(), n);
        assert_eq!(table.lower_touched.len(), n);
        assert_eq!(table.group.len(), n);
        assert_eq!(table.episodes.period.len(), n);
        assert_eq!(table.trend_from_base.len(), n);
        assert_eq!(table.trend_forecast.len(), n);
        if n <= 20 {
            assert_eq!(table.group, vec![0; n]);
            assert_eq!(table.episodes.period, vec![n; n]);
        }
    }
}

#[test]
fn groups_of_a_table_never_decrease() {
    let candles = quarter();
    let table = aggregate(
        &candles,
        Ratio::new(1, 1).unwrap(),
        Ratio::new(1, 1000).unwrap(),
        RollingWindowConfig::new(10, 3).unwrap(),
    );
    assert!(*table.group.last().unwrap() > 7);
    for i in 0..table.group.len() - 1 {
        let signal = table.abnormal_volume[i + 1]
            && (table.upper_touched[i + 1] != table.lower_touched[i + 1]);
        assert_eq!(table.group[i + 1], table.group[i] + signal as usize);
    }
    for i in 0..table.group.len() {
        let first = (0..=i).find(|&j| table.group[j] == table.group[i]).unwrap();
        assert_eq!(table.episodes.first_open[i], table.open[first]);
        assert_eq!(table.episodes.rising[i], table.high[i] as i64 - table.open[first] as i64);
        assert_eq!(table.episodes.falling[i], table.low[i] as i64 - table.open[first] as i64);
        assert_eq!(
            table.high[first + table.episodes.offset_to_max_high[i]],
            table.episodes.max_high_in_group[i]
        );
        assert_eq!(
            table.low[first + table.episodes.offset_to_min_low[i]],
            table.episodes.min_low_in_group[i]
        );
    }
}

#[test]
fn columns_of_the_bars() {
    let candles = vec![bar(10, 1, 2, 3, 4, 5), bar(20, 6, 7, 8, 9, 10)];
    assert_eq!(timestamp(&candles), vec![10, 20]);
    assert_eq!(load_data::candle::column(&candles, Field::Open), vec![1, 6]);
    assert_eq!(load_data::candle::column(&candles, Field::High), vec![2, 7]);
    assert_eq!(load_data::candle::column(&candles, Field::Low), vec![3, 8]);
    assert_eq!(load_data::candle::column(&candles, Field::Close), vec![4, 9]);
    assert_eq!(load_data::candle::column(&candles, Field::Volume), vec![5, 10]);
    assert_eq!(candles[1].value(Field::Close), 9);
}

#[test]
fn bars_must_open_later_and_later() {
    assert!(is_chronological(&Vec::new()));
    assert!(is_chronological(&vec![bar(5, 1, 1, 1, 1, 1)]));
    assert!(is_chronological(&vec![bar(-5, 1, 1, 1, 1, 1), bar(0, 1, 1, 1, 1, 1), bar(7, 1, 1, 1, 1, 1)]));
    assert!(!is_chronological(&vec![bar(1, 1, 1, 1, 1, 1), bar(1, 2, 2, 2, 2, 2)]));
    assert!(!is_chronological(&vec![bar(1, 1, 1, 1, 1, 1), bar(3, 1, 1, 1, 1, 1), bar(2, 1, 1, 1, 1, 1)]));
    assert!(is_chronological(&quarter()));
}
