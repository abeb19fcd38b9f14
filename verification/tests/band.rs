use load_data::band::{
    abnormal, lower_bound_touched, reaches_lower_band, reaches_upper_band, upper_bound_touched,
};
use load_data::config::{Ratio, RollingWindowConfig};
use load_data::rolling::rolling_stats;

fn ratio(num: u32, den: u32) -> Ratio {
    Ratio::new(num, den).unwrap()
}

fn window(size: u32, least: u32) -> RollingWindowConfig {
    RollingWindowConfig::new(size, least).unwrap()
}

#[test]
fn upper_band_is_reached_at_equality() {
    // Window 1, 1, 1, 5: mean 2, sample deviation 2. The value 5 lies 3 above.
    let column = vec![1, 1, 1, 5, 0];
    let stats = rolling_stats(&column, window(4, 4));
    assert_eq!(
        upper_bound_touched(&column, &stats, ratio(3, 2)),
        vec![false, false, false, false, true]
    );
    assert_eq!(
        upper_bound_touched(&column, &stats, ratio(151, 100)),
        vec![false, false, false, false, false]
    );
    assert_eq!(abnormal(&column, &stats, ratio(3, 2)), vec![false, false, false, false, true]);
    assert_eq!(abnormal(&column, &stats, ratio(2, 1)), vec![false, false, false, false, false]);
    let stat = stats[4].unwrap();
    assert!(reaches_upper_band(5, &stat, ratio(3, 2)));
    assert!(reaches_upper_band(6, &stat, ratio(2, 1)));
    assert!(!reaches_upper_band(5, &stat, ratio(2, 1)));
    assert!(!reaches_upper_band(1, &stat, ratio(0, 1)));
    assert!(reaches_upper_band(2, &stat, ratio(0, 1)));
}

#[test]
fn lower_band_is_reached_at_equality() {
    // Window 9, 9, 9, 5: mean 8, sample deviation 2. The value 5 lies 3 below.
    let column = vec![9, 9, 9, 5, 7];
    let stats = rolling_stats(&column, window(4, 4));
    assert_eq!(
        lower_bound_touched(&column, &stats, ratio(3, 2)),
        vec![false, false, false, false, true]
    );
    assert_eq!(
        lower_bound_touched(&column, &stats, ratio(151, 100)),
        vec![false, false, false, false, false]
    );
    let stat = stats[4].unwrap();
    assert!(reaches_lower_band(5, &stat, ratio(3, 2)));
    assert!(reaches_lower_band(4, &stat, ratio(2, 1)));
    assert!(!reaches_lower_band(5, &stat, ratio(2, 1)));
    assert!(!reaches_lower_band(9, &stat, ratio(0, 1)));
    assert!(reaches_lower_band(8, &stat, ratio(0, 1)));
}

#[test]
fn bands_of_the_largest_values_are_decided_exactly() {
    // Window 0, M, 0, M with M = u32::MAX: the value M reaches the upper band
    // exactly where sigma * sigma <= 3 / 4.
    let m = u32::MAX;
    let below = ratio(3719550785, m);
    let above = ratio(3719550786, m);
    let column = vec![0, m, 0, m, 0];
    let stats = rolling_stats(&column, window(4, 4));
    let stat = stats[4].unwrap();
    assert_eq!(
        (stat.count(), stat.sum(), stat.sum_sq()),
        (4, 8589934590, 36893488130239234050)
    );
    assert_eq!(upper_bound_touched(&column, &stats, below), vec![false, false, false, false, true]);
    assert_eq!(upper_bound_touched(&column, &stats, above), vec![false; 5]);
    let column = vec![m, 0, m, 0, 9];
    let stats = rolling_stats(&column, window(4, 4));
    assert_eq!(lower_bound_touched(&column, &stats, below), vec![false, false, false, false, true]);
    assert_eq!(lower_bound_touched(&column, &stats, above), vec![false; 5]);
}

#[test]
fn window_of_one_value_reaches_no_band() {
    let column = vec![5, 7, 9];
    let stats = rolling_stats(&column, window(1, 1));
    assert!(stats[1].is_some() && stats[2].is_some());
    let zero = ratio(0, 1);
    assert_eq!(upper_bound_touched(&column, &stats, zero), vec![false; 3]);
    assert_eq!(lower_bound_touched(&column, &stats, zero), vec![false; 3]);
    assert_eq!(abnormal(&column, &stats, zero), vec![false; 3]);
}

#[test]
fn zero_sigma_compares_with_the_mean() {
    let column = vec![2, 4, 3, 9];
    let stats = rolling_stats(&column, window(2, 2));
    let zero = ratio(0, 1);
    assert_eq!(upper_bound_touched(&column, &stats, zero), vec![false, false, true, false]);
    assert_eq!(lower_bound_touched(&column, &stats, zero), vec![false, false, false, true]);
}

#[test]
fn rows_without_statistics_are_never_flagged() {
    let column = vec![1, 100, 1, 100, 1, 100];
    let sigma = ratio(0, 1);
    let none = vec![None; 6];
    assert_eq!(abnormal(&column, &none, sigma), vec![false; 6]);
    assert_eq!(upper_bound_touched(&column, &none, sigma), vec![false; 6]);
    assert_eq!(lower_bound_touched(&column, &none, sigma), vec![false; 6]);
    // A column of statistics that ends early leaves the later bars unflagged.
    let stats = rolling_stats(&column, window(2, 2));
    let short = stats[..4].to_vec();
    assert_eq!(
        upper_bound_touched(&column, &stats, sigma),
        vec![false, false, true, false, true, false]
    );
    assert_eq!(
        upper_bound_touched(&column, &short, sigma),
        vec![false, false, true, false, false, false]
    );
}

#[test]
fn constant_column_touches_both_of_its_bands() {
    let column = vec![7; 6];
    let stats = rolling_stats(&column, window(3, 3));
    let sigma = ratio(2, 1);
    assert_eq!(
        upper_bound_touched(&column, &stats, sigma),
        vec![false, false, false, true, true, true]
    );
    assert_eq!(
        lower_bound_touched(&column, &stats, sigma),
        vec![false, false, false, true, true, true]
    );
}
