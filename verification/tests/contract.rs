use ridesim::contract::{
    build_run_context, default_max_shards, normalize_request, request_fingerprint,
    sorted_unique, Dimensions, SweepRequest, ValidationError, DEFAULT_MAX_SHARDS,
    ORCHESTRATION_SCHEMA_VERSION,
};

fn dims(entries: &[(&str, &[&str])]) -> Dimensions {
    let mut d = Dimensions::new();
    for (name, values) in entries {
        d.insert(name.to_string(), values.iter().map(|v| v.to_string()).collect());
    }
    d
}

fn request(run_id: &str, dimensions: Dimensions) -> SweepRequest {
    SweepRequest {
        run_id: run_id.to_string(),
        dimensions,
        shard_count: Some(1),
        shard_size: None,
        max_shards: 10,
        seed: 0,
        failure_injection_shards: Vec::new(),
    }
}

#[test]
fn normalize_request_rejects_empty_run_id() {
    let request = SweepRequest {
        run_id: " ".to_string(),
        dimensions: dims(&[("num_riders", &["100"])]),
        shard_count: Some(1),
        shard_size: None,
        max_shards: 10,
        seed: 0,
        failure_injection_shards: Vec::new(),
    };

    let error = normalize_request(request).expect_err("request should fail");
    assert_eq!(error.message(), "run_id cannot be empty");
}

#[test]
fn normalize_request_sorts_and_deduplicates_failures() {
    let request = SweepRequest {
        run_id: "run-1".to_string(),
        dimensions: dims(&[("num_riders", &["100", "200"]), ("num_drivers", &["20"])]),
        shard_count: Some(2),
        shard_size: None,
        max_shards: 10,
        seed: 7,
        failure_injection_shards: vec![3, 1, 3],
    };

    let normalized = normalize_request(request).expect("request should pass");
    assert_eq!(normalized.total_points, 2);
    assert_eq!(normalized.failure_injection_shards, vec![1, 3]);
}

#[test]
fn normalize_request_trims_run_id_and_multiplies_dimension_sizes() {
    let mut r = request("  run-7\t", dims(&[("a", &["1", "2", "3"]), ("b", &["x", "y"])]));
    r.seed = -5;
    let n = normalize_request(r).expect("request should pass");
    assert_eq!(n.run_id, "run-7");
    assert_eq!(n.total_points, 6);
    assert_eq!(n.seed, -5);
    assert_eq!(n.dimensions.len(), 2);
}

#[test]
fn normalize_request_rejects_empty_dimensions() {
    let e = normalize_request(request("r", Dimensions::new())).unwrap_err();
    assert_eq!(e.message(), "dimensions cannot be empty");
}

#[test]
fn normalize_request_rejects_blank_dimension_name() {
    let e = normalize_request(request("r", dims(&[("  ", &["1"])]))).unwrap_err();
    assert_eq!(e.message(), "dimension names must be non-empty strings");
}

#[test]
fn normalize_request_rejects_empty_dimension() {
    let e = normalize_request(request("r", dims(&[("num_riders", &[])]))).unwrap_err();
    assert_eq!(e.message(), "Dimension 'num_riders' must be a non-empty list");
}

#[test]
fn normalize_request_rejects_too_many_values() {
    let values: Vec<String> = (0..10_001).map(|v| v.to_string()).collect();
    let mut d = Dimensions::new();
    d.insert("seed".to_string(), values);
    let e = normalize_request(request("r", d)).unwrap_err();
    assert_eq!(e.message(), "Dimension 'seed' exceeds MAX_DIMENSION_VALUES=10000");
}

#[test]
fn normalize_request_rejects_too_large_parameter_space() {
    let values: Vec<String> = (0..1_000).map(|v| v.to_string()).collect();
    let mut d = Dimensions::new();
    d.insert("a".to_string(), values.clone());
    d.insert("b".to_string(), values);
    let e = normalize_request(request("r", d)).unwrap_err();
    assert_eq!(
        e.message(),
        "Parameter space is too large for this deployment (>200000 points)"
    );
}

#[test]
fn normalize_request_requires_shard_count_or_size() {
    let mut r = request("r", dims(&[("a", &["1"])]));
    r.shard_count = None;
    let e = normalize_request(r).unwrap_err();
    assert_eq!(e.message(), "Either shard_count or shard_size is required");
}

#[test]
fn normalize_request_rejects_zero_shard_count_size_and_max() {
    let mut r = request("r", dims(&[("a", &["1"])]));
    r.shard_count = Some(0);
    assert_eq!(normalize_request(r).unwrap_err().message(), "shard_count must be a positive integer");

    let mut r = request("r", dims(&[("a", &["1"])]));
    r.shard_count = None;
    r.shard_size = Some(0);
    assert_eq!(normalize_request(r).unwrap_err().message(), "shard_size must be a positive integer");

    let mut r = request("r", dims(&[("a", &["1"])]));
    r.max_shards = 0;
    assert_eq!(normalize_request(r).unwrap_err().message(), "max_shards must be a positive integer");
}

#[test]
fn dimensions_stay_sorted_and_insert_replaces() {
    let mut d = Dimensions::new();
    d.insert("b".to_string(), vec!["1".to_string()]);
    d.insert("a".to_string(), vec!["1".to_string(), "2".to_string()]);
    d.insert("c".to_string(), vec![]);
    d.insert("b".to_string(), vec!["7".to_string(), "8".to_string(), "9".to_string()]);
    assert_eq!(d.len(), 3);
    assert_eq!(d.entry(0).name, "a");
    assert_eq!(d.entry(1).name, "b");
    assert_eq!(d.entry(1).values.len(), 3);
    assert_eq!(d.entry(2).name, "c");
    let copy = d.duplicate();
    assert_eq!(copy, d);
}

#[test]
fn sorted_unique_orders_and_removes_repeats() {
    assert_eq!(sorted_unique(&vec![5, 1, 5, 0, 3, 1]), vec![0, 1, 3, 5]);
    assert_eq!(sorted_unique(&vec![]), Vec::<usize>::new());
}

#[test]
fn fingerprint_is_lowercase_hex_sha256_of_contract_json() {
    let f = request_fingerprint("abc");
    assert_eq!(
        f,
        "ba7816bf8f01cfea414140de5dae2223b00361a396177a9cb410ff61f20015ad"
    );
    assert_eq!(request_fingerprint("").len(), 64);
    assert_ne!(request_fingerprint("{\"a\":1}"), request_fingerprint("{\"a\":2}"));
}

#[test]
fn run_context_carries_schema_version() {
    let ctx = build_run_context("run-9".to_string(), "abcd".to_string());
    assert_eq!(ctx.run_id, "run-9");
    assert_eq!(ctx.schema_version, ORCHESTRATION_SCHEMA_VERSION);
    assert_eq!(ctx.request_fingerprint, "abcd");
}

#[test]
fn validation_error_keeps_its_message() {
    let e = ValidationError::new("boom".to_string());
    assert_eq!(e.message(), "boom");
    assert_eq!(default_max_shards(), DEFAULT_MAX_SHARDS);
    assert_eq!(default_max_shards(), 1000);
}
