use ridesim::contract::{ChildShardPayload, Dimensions};
use ridesim::points::{
    default_simulation_end_time_ms, dimension_kind, dimension_u32, dimension_usize,
    matching_algorithm_type_name, parameter_set_name, parse_matching_algorithm,
    parse_traffic_profile, point_seed, point_value_indices, simulation_duration_ms, DimensionKind,
    SimExperimentsShardExecutor,
};
use ridesim::scenario::{MatchingAlgorithmType, TrafficProfileMode};

fn texts(values: &[&str]) -> Vec<String> {
    values.iter().map(|v| v.to_string()).collect()
}

fn sample_payload() -> ChildShardPayload {
    let mut dimensions = Dimensions::new();
    dimensions.insert("commission_rate".to_string(), texts(&["0.1", "0.2"]));
    dimensions.insert("num_drivers".to_string(), texts(&["2"]));
    dimensions.insert("num_riders".to_string(), texts(&["4"]));
    ChildShardPayload {
        run_id: "run-456".to_string(),
        run_date: Some("2026-02-14".to_string()),
        dimensions,
        total_points: 2,
        shard_id: 0,
        start_index: 0,
        end_index_exclusive: 1,
        seed: 1,
        failure_injection_shards: vec![],
    }
}

#[test]
fn rejects_unsupported_dimension_name() {
    let mut payload = sample_payload();
    payload
        .dimensions
        .insert("unknown_dimension".to_string(), texts(&["1"]));
    payload.total_points = 2;

    let executor = SimExperimentsShardExecutor;
    let error = executor
        .select_point(&payload, payload.start_index)
        .err()
        .expect("unsupported dimension should fail");

    assert!(error.contains("Unsupported dimension 'unknown_dimension'"));
}

#[test]
fn last_dimension_varies_fastest() {
    let mut dims = Dimensions::new();
    dims.insert("num_drivers".to_string(), texts(&["1", "2", "3"]));
    dims.insert("num_riders".to_string(), texts(&["10", "20"]));
    let expected: [[usize; 2]; 6] = [[0, 0], [0, 1], [1, 0], [1, 1], [2, 0], [2, 1]];
    for (index, digits) in expected.iter().enumerate() {
        assert_eq!(point_value_indices(&dims, index).unwrap(), digits.to_vec());
    }
    assert_eq!(
        point_value_indices(&dims, 6).unwrap_err(),
        "Index exceeds dimension product"
    );
}

#[test]
fn every_point_below_the_product_decodes_and_composes_back() {
    let mut dims = Dimensions::new();
    dims.insert("base_fare".to_string(), texts(&["1", "2"]));
    dims.insert("match_radius".to_string(), texts(&["1", "2", "3"]));
    dims.insert("num_riders".to_string(), texts(&["1", "2", "3", "4"]));
    let radices = [2usize, 3, 4];
    for index in 0..24usize {
        let digits = point_value_indices(&dims, index).unwrap();
        let mut composed = 0usize;
        for (d, r) in digits.iter().zip(radices.iter()) {
            assert!(d < r);
            composed = composed * r + d;
        }
        assert_eq!(composed, index);
    }
    assert!(point_value_indices(&dims, 24).is_err());
}

#[test]
fn an_empty_dimension_is_named_in_the_error() {
    let mut dims = Dimensions::new();
    dims.insert("num_riders".to_string(), vec![]);
    assert_eq!(
        point_value_indices(&dims, 0).unwrap_err(),
        "Dimension 'num_riders' cannot be empty"
    );
}

#[test]
fn selection_carries_seed_and_parameter_set_name() {
    let mut payload = sample_payload();
    payload.shard_id = 3;
    payload.seed = 12;
    let selection = SimExperimentsShardExecutor.select_point(&payload, 1).unwrap();
    assert_eq!(selection.value_indices, vec![1, 0, 0]);
    assert_eq!(selection.seed, 12 ^ 1);
    assert_eq!(selection.parameter_set_name, "run-456-shard-3");
}

#[test]
fn shard_checks_reject_injected_failures_and_overlong_ranges() {
    let executor = SimExperimentsShardExecutor;
    let mut payload = sample_payload();
    assert!(executor.check_shard(&payload).is_ok());
    payload.failure_injection_shards = vec![5, 0];
    assert_eq!(
        executor.check_shard(&payload).unwrap_err(),
        "Injected shard failure for verification"
    );
    payload.failure_injection_shards = vec![];
    payload.end_index_exclusive = 3;
    assert_eq!(
        executor.check_shard(&payload).unwrap_err(),
        "end_index_exclusive exceeds total_points"
    );
}

#[test]
fn seeds_mix_the_point_index_in() {
    assert_eq!(point_seed(1, 0), 1);
    assert_eq!(point_seed(1, 1), 0);
    assert_eq!(point_seed(-1, 3), u64::MAX ^ 3);
}

#[test]
fn parameter_set_names_join_run_and_shard() {
    assert_eq!(parameter_set_name("run-1", 12), "run-1-shard-12");
}

#[test]
fn simulation_end_defaults_to_two_hours_after_requests_stop() {
    assert_eq!(default_simulation_end_time_ms(3_600_000), 10_800_000);
    assert_eq!(default_simulation_end_time_ms(u64::MAX - 5), u64::MAX);
}

#[test]
fn simulation_duration_is_hours_in_milliseconds_saturating() {
    assert_eq!(simulation_duration_ms(4), 14_400_000);
    assert_eq!(simulation_duration_ms(u64::MAX / 1000), u64::MAX);
}

#[test]
fn dimension_values_that_do_not_fit_are_refused() {
    assert_eq!(dimension_u32("match_radius", 7).unwrap(), 7);
    assert_eq!(
        dimension_u32("match_radius", 1u64 << 32).unwrap_err(),
        "Dimension 'match_radius' is too large"
    );
    assert_eq!(dimension_usize("num_riders", 9).unwrap(), 9);
}

#[test]
fn dimension_names_map_to_their_parameters() {
    assert_eq!(dimension_kind("num_riders"), Some(DimensionKind::NumRiders));
    assert_eq!(dimension_kind("base_speed_kmh"), Some(DimensionKind::BaseSpeedKmh));
    assert_eq!(
        dimension_kind("simulation_duration_hours"),
        Some(DimensionKind::SimulationDurationHours)
    );
    assert_eq!(dimension_kind("unknown_dimension"), None);
    assert_eq!(dimension_kind("Num_Riders"), None);
}

#[test]
fn matching_algorithms_parse_ignoring_ascii_case() {
    assert_eq!(parse_matching_algorithm("SIMPLE").unwrap(), MatchingAlgorithmType::Simple);
    assert_eq!(parse_matching_algorithm("Cost-Based").unwrap(), MatchingAlgorithmType::CostBased);
    assert_eq!(parse_matching_algorithm("costbased").unwrap(), MatchingAlgorithmType::CostBased);
    assert_eq!(parse_matching_algorithm("cost_based").unwrap(), MatchingAlgorithmType::CostBased);
    assert_eq!(parse_matching_algorithm("Hungarian").unwrap(), MatchingAlgorithmType::Hungarian);
    assert_eq!(
        parse_matching_algorithm("greedy").unwrap_err(),
        "Unsupported matching_algorithm_type 'greedy' (expected simple, cost_based, or hungarian)"
    );
}

#[test]
fn traffic_profiles_parse_ignoring_ascii_case() {
    assert_eq!(parse_traffic_profile("None").unwrap(), TrafficProfileMode::NoProfile);
    assert_eq!(parse_traffic_profile("BERLIN").unwrap(), TrafficProfileMode::Berlin);
    assert_eq!(
        parse_traffic_profile("paris").unwrap_err(),
        "Unsupported traffic_profile 'paris' (expected none or berlin)"
    );
}

#[test]
fn matching_algorithm_names_are_snake_case() {
    assert_eq!(matching_algorithm_type_name(MatchingAlgorithmType::Simple), "simple");
    assert_eq!(matching_algorithm_type_name(MatchingAlgorithmType::CostBased), "cost_based");
    assert_eq!(matching_algorithm_type_name(MatchingAlgorithmType::Hungarian), "hungarian");
}
