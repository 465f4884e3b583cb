use ridesim::grid::{
    duration_end_time_ms, experiment_name, experiment_seed, grid_combinations,
    is_valid_matching_config, number_valid_combinations,
};
use ridesim::scenario::MatchingAlgorithmType;

#[test]
fn a_single_axis_gives_one_combination_per_value() {
    assert_eq!(grid_combinations(&vec![3]), vec![vec![0], vec![1], vec![2]]);
}

#[test]
fn the_first_axis_varies_fastest() {
    assert_eq!(
        grid_combinations(&vec![2, 2]),
        vec![vec![0, 0], vec![1, 0], vec![0, 1], vec![1, 1]]
    );
}

#[test]
fn the_number_of_combinations_is_the_product_of_the_axes() {
    let combos = grid_combinations(&vec![2, 3, 4]);
    assert_eq!(combos.len(), 24);
    let mut seen = combos.clone();
    seen.sort();
    seen.dedup();
    assert_eq!(seen.len(), 24);
    assert!(grid_combinations(&vec![2, 0, 4]).is_empty());
    assert_eq!(grid_combinations(&vec![]), vec![Vec::<usize>::new()]);
}

#[test]
fn hungarian_without_batches_is_discarded() {
    let algorithms = [MatchingAlgorithmType::Simple, MatchingAlgorithmType::Hungarian];
    let batches = [false, true];
    let kept: Vec<Vec<usize>> = grid_combinations(&vec![2, 2])
        .into_iter()
        .filter(|c| is_valid_matching_config(algorithms[c[0]], batches[c[1]]))
        .collect();
    assert_eq!(kept.len(), 3);
    assert!(is_valid_matching_config(MatchingAlgorithmType::CostBased, false));
    assert!(!is_valid_matching_config(MatchingAlgorithmType::Hungarian, false));
}

#[test]
fn experiments_are_named_and_seeded_by_number() {
    assert_eq!(experiment_name(0), "exp_0");
    assert_eq!(experiment_name(17), "exp_17");
    assert_eq!(experiment_seed(0), 0);
    assert_eq!(experiment_seed(2), 2 * 0x9e3779b9);
    assert_eq!(experiment_seed(usize::MAX), (usize::MAX as u64).wrapping_mul(0x9e3779b9));
}

#[test]
fn durations_end_that_many_hours_after_requests_stop() {
    assert_eq!(duration_end_time_ms(3_600_000, 4), 3_600_000 + 4 * 3_600_000);
    assert_eq!(duration_end_time_ms(u64::MAX - 1, 1), u64::MAX);
}

#[test]
fn invalid_combinations_are_dropped_and_the_rest_numbered() {
    let matching = vec![
        (MatchingAlgorithmType::Hungarian, false),
        (MatchingAlgorithmType::Hungarian, true),
        (MatchingAlgorithmType::Simple, false),
        (MatchingAlgorithmType::CostBased, true),
    ];
    let kept = number_valid_combinations(&matching);
    assert_eq!(kept, vec![1, 2, 3]);
    assert_eq!(experiment_name(0), "exp_0");
}
