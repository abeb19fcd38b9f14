use load_data::config::{Ratio, RollingWindowConfig};

#[test]
fn ratio_needs_a_denominator() {
    assert!(Ratio::new(1, 0).is_none());
    assert!(Ratio::new(0, 0).is_none());
    let half = Ratio::new(1, 2).unwrap();
    assert_eq!(half.numerator(), 1);
    assert_eq!(half.denominator(), 2);
    let zero = Ratio::new(0, 7).unwrap();
    assert_eq!((zero.numerator(), zero.denominator()), (0, 7));
}

#[test]
fn window_needs_min_periods_within_its_size() {
    assert!(RollingWindowConfig::new(0, 0).is_none());
    assert!(RollingWindowConfig::new(5, 0).is_none());
    assert!(RollingWindowConfig::new(5, 6).is_none());
    let whole = RollingWindowConfig::new(20, 20).unwrap();
    assert_eq!((whole.window_size(), whole.min_periods()), (20, 20));
    let partial = RollingWindowConfig::new(20, 1).unwrap();
    assert_eq!((partial.window_size(), partial.min_periods()), (20, 1));
}
