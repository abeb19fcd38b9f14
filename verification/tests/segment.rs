use load_data::segment::group;

#[test]
fn signal_needs_volume_and_exactly_one_band() {
    assert!(load_data::segment::trigger(true, true, false));
    assert!(load_data::segment::trigger(true, false, true));
    assert!(!load_data::segment::trigger(true, true, true));
    assert!(!load_data::segment::trigger(true, false, false));
    assert!(!load_data::segment::trigger(false, true, false));
    assert!(!load_data::segment::trigger(false, false, true));
    assert!(!load_data::segment::trigger(false, true, true));
    assert!(!load_data::segment::trigger(false, false, false));
}

#[test]
fn group_counts_signals_up_to_the_bar() {
    let abnormal = vec![false, true, true, false, true, true, true, false];
    let upper = vec![true, true, false, false, true, true, false, true];
    let lower = vec![false, false, false, true, true, false, true, false];
    assert_eq!(group(&abnormal, &upper, &lower), vec![0, 1, 1, 1, 1, 2, 3, 3]);
}

#[test]
fn consecutive_signals_each_open_a_group() {
    let abnormal = vec![true, true, true, true];
    let upper = vec![true, true, true, true];
    let lower = vec![false, false, false, false];
    assert_eq!(group(&abnormal, &upper, &lower), vec![1, 2, 3, 4]);
}

#[test]
fn bars_before_the_first_signal_are_in_group_zero() {
    let abnormal = vec![false, false, false, true, false];
    let upper = vec![false, true, false, false, false];
    let lower = vec![false, false, true, true, false];
    assert_eq!(group(&abnormal, &upper, &lower), vec![0, 0, 0, 1, 1]);
    assert_eq!(group(&vec![false; 3], &vec![true; 3], &vec![false; 3]), vec![0, 0, 0]);
    assert!(group(&Vec::new(), &Vec::new(), &Vec::new()).is_empty());
}

#[test]
fn group_grows_by_the_signal_of_the_next_bar() {
    let abnormal = vec![true, false, true, true, false, true, true, true, false, true];
    let upper = vec![true, true, false, true, true, true, false, true, true, false];
    let lower = vec![false, false, true, true, false, false, false, false, true, true];
    let ids = group(&abnormal, &upper, &lower);
    assert_eq!(ids[0], load_data::segment::trigger(abnormal[0], upper[0], lower[0]) as usize);
    for i in 0..ids.len() - 1 {
        assert!(ids[i] <= ids[i + 1]);
        let step = load_data::segment::trigger(abnormal[i + 1], upper[i + 1], lower[i + 1]) as usize;
        assert_eq!(ids[i + 1], ids[i] + step);
    }
}

#[test]
fn band_column_that_ends_early_counts_as_untouched() {
    let abnormal = vec![true, true, true];
    let upper = vec![true];
    let lower = vec![false, true];
    assert_eq!(group(&abnormal, &upper, &lower), vec![1, 2, 2]);
}
