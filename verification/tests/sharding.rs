use ridesim::contract::{
    normalize_request, Dimensions, NormalizedSweepRequest, ShardAssignment, SweepRequest,
};
use ridesim::sharding::{compute_shard_plan, validate_assignments};

fn dims(entries: &[(&str, &[&str])]) -> Dimensions {
    let mut d = Dimensions::new();
    for (name, values) in entries {
        d.insert(name.to_string(), values.iter().map(|v| v.to_string()).collect());
    }
    d
}

fn normalized(total_points: usize, shard_count: Option<usize>, shard_size: Option<usize>, max_shards: usize) -> NormalizedSweepRequest {
    NormalizedSweepRequest {
        run_id: "r".to_string(),
        dimensions: Dimensions::new(),
        total_points,
        shard_count,
        shard_size,
        max_shards,
        seed: 0,
        failure_injection_shards: Vec::new(),
    }
}

#[test]
fn compute_shard_plan_is_deterministic_for_identical_input() {
    let request = SweepRequest {
        run_id: "deterministic-001".to_string(),
        dimensions: dims(&[("num_riders", &["100", "200"]), ("commission_rate", &["0.1", "0.2", "0.3"])]),
        shard_count: Some(4),
        shard_size: None,
        max_shards: 10,
        seed: 42,
        failure_injection_shards: Vec::new(),
    };

    let normalized = normalize_request(request).expect("request should pass");
    let plan_a = compute_shard_plan(&normalized).expect("plan should pass");
    let plan_b = compute_shard_plan(&normalized).expect("plan should pass");

    assert_eq!(plan_a, plan_b);
    assert_eq!(plan_a[0].start_index, 0);
    assert_eq!(plan_a[plan_a.len() - 1].end_index_exclusive, normalized.total_points);
}

#[test]
fn compute_shard_plan_rejects_excessive_shards() {
    let request = SweepRequest {
        run_id: "too-many-shards".to_string(),
        dimensions: dims(&[("num_riders", &["10", "20", "30", "40", "50"])]),
        shard_count: None,
        shard_size: Some(1),
        max_shards: 2,
        seed: 0,
        failure_injection_shards: Vec::new(),
    };

    let normalized = normalize_request(request).expect("request should pass");
    let error = compute_shard_plan(&normalized).expect_err("plan should fail");
    assert_eq!(
        error.message(),
        format!("Computed shard count {} exceeds max_shards=2", normalized.total_points)
    );
}

#[test]
fn plan_gives_first_shards_the_remainder() {
    let plan = compute_shard_plan(&normalized(10, Some(4), None, 10)).unwrap();
    let bounds: Vec<(usize, usize, usize)> = plan
        .iter()
        .map(|a| (a.shard_id, a.start_index, a.end_index_exclusive))
        .collect();
    assert_eq!(bounds, vec![(0, 0, 3), (1, 3, 6), (2, 6, 8), (3, 8, 10)]);
}

#[test]
fn shard_count_is_capped_at_point_count() {
    let plan = compute_shard_plan(&normalized(3, Some(8), None, 10)).unwrap();
    assert_eq!(plan.len(), 3);
    assert!(plan.iter().all(|a| a.end_index_exclusive - a.start_index == 1));
}

#[test]
fn shard_size_rounds_shard_count_up() {
    let plan = compute_shard_plan(&normalized(10, None, Some(3), 10)).unwrap();
    assert_eq!(plan.len(), 4);
    assert_eq!(plan[3].end_index_exclusive, 10);
}

#[test]
fn plan_errors_on_missing_shape_and_empty_space() {
    let e = compute_shard_plan(&normalized(10, None, None, 10)).unwrap_err();
    assert_eq!(e.message(), "Either shard_count or shard_size is required");
    let e = compute_shard_plan(&normalized(0, Some(3), None, 10)).unwrap_err();
    assert_eq!(e.message(), "No shards to process");
}

#[test]
fn validate_assignments_reports_each_defect() {
    let a = |s, b, e| ShardAssignment { shard_id: s, start_index: b, end_index_exclusive: e };
    assert_eq!(validate_assignments(5, &[]).unwrap_err().message(), "No shards to process");
    assert_eq!(
        validate_assignments(5, &[a(0, 1, 5)]).unwrap_err().message(),
        "Shard boundaries do not cover full parameter space"
    );
    assert_eq!(
        validate_assignments(5, &[a(0, 0, 2), a(1, 3, 5)]).unwrap_err().message(),
        "Shard boundaries overlap or leave gaps"
    );
    assert!(validate_assignments(5, &[a(0, 0, 2), a(1, 2, 5)]).is_ok());
}
