use ridesim::timing::timing_distribution;

#[test]
fn distribution_of_durations() {
    let d = timing_distribution(vec![30, 10, 20, 40]);
    assert_eq!(d.min(), 10);
    assert_eq!(d.max(), 40);
    assert_eq!(d.mean(), 25);
    assert_eq!(d.sorted(), &vec![10, 20, 30, 40]);
}

#[test]
fn nearest_rank_percentiles() {
    let d = timing_distribution(vec![10, 20, 30, 40, 50, 60, 70, 80, 90, 100]);
    assert_eq!(d.percentile(0), Some(10));
    assert_eq!(d.percentile(50), Some(50));
    assert_eq!(d.percentile(90), Some(90));
    assert_eq!(d.percentile(100), Some(100));
    assert_eq!(d.percentile(101), None);
}

#[test]
fn empty_distribution_is_all_zero() {
    let d = timing_distribution(Vec::new());
    assert_eq!((d.min(), d.mean(), d.max()), (0, 0, 0));
    assert_eq!(d.percentile(50), None);
}

#[test]
fn mean_rounds_down() {
    let d = timing_distribution(vec![1, 2]);
    assert_eq!(d.mean(), 1);
}

#[test]
fn percentile_takes_the_nearest_rank() {
    let d = timing_distribution(vec![2, 1]);
    assert_eq!(d.percentile(90), Some(2));
    assert_eq!(d.percentile(50), Some(1));
    assert_eq!(d.percentile(51), Some(2));
    assert_eq!(d.percentile(0), Some(1));
    assert_eq!(d.percentile(101), None);
}
