use std::cell::RefCell;
use std::collections::BTreeMap;

use ridesim::adapters::{ChildInvoker, OutcomeStore};
use ridesim::child::{
    point_artifact_keys, store_artifact, store_point_outputs, store_point_result,
    write_failure_outcome, write_success_outcome, ArtifactKind, ChildHandlerConfig,
    PointOutputs,
};
use ridesim::contract::EffectiveParameterRecord;
use ridesim::contract::{ChildShardPayload, Dimensions, SweepRequest};
use ridesim::parent::prepare_parent_dispatch;

struct CapturingInvoker {
    payloads: RefCell<Vec<Vec<u8>>>,
    refuse_after: usize,
}

impl ChildInvoker for CapturingInvoker {
    fn invoke_child_async(&self, payload: &[u8]) -> Result<(), String> {
        let mut payloads = self.payloads.borrow_mut();
        if payloads.len() >= self.refuse_after {
            return Err("throttled".to_string());
        }
        payloads.push(payload.to_vec());
        Ok(())
    }
}

struct RecordingStore {
    writes: RefCell<BTreeMap<String, Vec<u8>>>,
    refused_key_part: Option<&'static str>,
}

impl RecordingStore {
    fn new(refused_key_part: Option<&'static str>) -> Self {
        RecordingStore { writes: RefCell::new(BTreeMap::new()), refused_key_part }
    }
}

impl OutcomeStore for RecordingStore {
    fn write_object(&self, key: &str, body: &[u8]) -> Result<(), String> {
        if let Some(part) = self.refused_key_part {
            if key.contains(part) {
                return Err("access denied".to_string());
            }
        }
        self.writes.borrow_mut().insert(key.to_string(), body.to_vec());
        Ok(())
    }

    fn delete_object(&self, key: &str) -> Result<(), String> {
        self.writes.borrow_mut().remove(key);
        Ok(())
    }
}

fn request() -> SweepRequest {
    let mut dimensions = Dimensions::new();
    dimensions.insert("num_riders".to_string(), vec!["1".to_string(), "2".to_string(), "3".to_string()]);
    SweepRequest {
        run_id: "adapter-run".to_string(),
        dimensions,
        shard_count: Some(3),
        shard_size: None,
        max_shards: 10,
        seed: 0,
        failure_injection_shards: Vec::new(),
    }
}

fn payload() -> ChildShardPayload {
    let mut dimensions = Dimensions::new();
    dimensions.insert("num_riders".to_string(), vec!["1".to_string()]);
    ChildShardPayload {
        run_id: "run-123".to_string(),
        run_date: None,
        dimensions,
        total_points: 4,
        shard_id: 1,
        start_index: 2,
        end_index_exclusive: 4,
        seed: 42,
        failure_injection_shards: Vec::new(),
    }
}

fn config() -> ChildHandlerConfig {
    ChildHandlerConfig {
        bucket: "bucket".to_string(),
        prefix: "outcomes".to_string(),
        run_date: "2026-02-14".to_string(),
        event_time: "2026-02-14T00:00:00Z".to_string(),
    }
}

#[test]
fn every_accepted_dispatch_is_recorded_in_shard_order() {
    let invoker = CapturingInvoker { payloads: RefCell::new(Vec::new()), refuse_after: usize::MAX };
    let mut dispatch = prepare_parent_dispatch(request(), Some("target")).ok().unwrap();
    let mut shard = 0u8;
    while dispatch.next_payload().is_some() {
        dispatch.dispatch_next(&[shard], &invoker).unwrap();
        shard += 1;
    }
    let response = dispatch.finish();
    assert_eq!(invoker.payloads.borrow().clone(), vec![vec![0], vec![1], vec![2]]);
    let shard_ids: Vec<usize> = response.dispatches.iter().map(|d| d.shard_id).collect();
    assert_eq!(shard_ids, vec![0, 1, 2]);
    assert_eq!(response.shards_dispatched, 3);
}

#[test]
fn a_refused_dispatch_is_not_recorded() {
    let invoker = CapturingInvoker { payloads: RefCell::new(Vec::new()), refuse_after: 1 };
    let mut dispatch = prepare_parent_dispatch(request(), Some("target")).ok().unwrap();
    assert!(dispatch.dispatch_next(b"first", &invoker).is_ok());
    assert_eq!(dispatch.dispatch_next(b"second", &invoker).unwrap_err(), "throttled");
    assert_eq!(dispatch.dispatched_count(), 1);
    assert_eq!(dispatch.next_payload().unwrap().shard_id, 1);
}

#[test]
fn point_outputs_are_written_under_their_keys() {
    let store = RecordingStore::new(None);
    let keys = point_artifact_keys(&payload(), &config(), 2);
    store_point_outputs(&store, &keys, b"m", b"t", b"s").unwrap();
    store_artifact(&store, ArtifactKind::EffectiveParameters, &keys.effective_parameters, b"e").unwrap();
    let writes = store.writes.borrow();
    assert_eq!(writes.get(&keys.metrics).unwrap(), b"m");
    assert_eq!(writes.get(&keys.trip_data).unwrap(), b"t");
    assert_eq!(writes.get(&keys.snapshot_counts).unwrap(), b"s");
    assert_eq!(writes.get(&keys.effective_parameters).unwrap(), b"e");
}

#[test]
fn a_refused_artifact_write_stops_the_point_and_names_the_artifact() {
    let store = RecordingStore::new(Some("dataset=trip_data"));
    let keys = point_artifact_keys(&payload(), &config(), 2);
    let error = store_point_outputs(&store, &keys, b"m", b"t", b"s").unwrap_err();
    assert_eq!(error, "Failed to persist trip data artifact: access denied");
    let writes = store.writes.borrow();
    assert!(writes.contains_key(&keys.metrics));
    assert!(!writes.contains_key(&keys.snapshot_counts));
}

#[test]
fn success_outcome_write_answers_ok_or_fails_the_shard() {
    let store = RecordingStore::new(None);
    let response = write_success_outcome(&store, &payload(), "outcome-key".to_string(), b"PAR1").unwrap();
    assert_eq!(response.status, "ok");
    assert_eq!(response.shard_id, 1);
    assert_eq!(response.outcome_key, "outcome-key");
    assert_eq!(store.writes.borrow().get("outcome-key").unwrap(), b"PAR1");

    let refusing = RecordingStore::new(Some("outcome"));
    let message = write_success_outcome(&refusing, &payload(), "outcome-key".to_string(), b"PAR1").unwrap_err();
    assert_eq!(message, "Failed to persist success outcome: access denied");
}

#[test]
fn failure_outcome_always_names_its_key() {
    let store = RecordingStore::new(None);
    let error = write_failure_outcome(&store, "error-key".to_string(), "boom".to_string(), b"PAR1");
    assert_eq!(error.message, "boom");
    assert_eq!(error.failure_key.as_deref(), Some("error-key"));

    let refusing = RecordingStore::new(Some("error"));
    let error = write_failure_outcome(&refusing, "error-key".to_string(), "boom".to_string(), b"PAR1");
    assert_eq!(error.message, "Failed to persist failure outcome: access denied");
    assert_eq!(error.failure_key.as_deref(), Some("error-key"));
}

fn point_outputs() -> PointOutputs {
    PointOutputs {
        point_index: 3,
        metrics_parquet: b"m".to_vec(),
        trip_data_parquet: b"t".to_vec(),
        snapshot_counts_parquet: b"s".to_vec(),
        effective_parameters_json: "{}".to_string(),
        parameter_fingerprint: "fp".to_string(),
    }
}

fn encode_record(r: &EffectiveParameterRecord) -> Result<Vec<u8>, String> {
    Ok(format!("{}/{}/{}", r.run_id, r.point_index, r.parameter_fingerprint).into_bytes())
}

#[test]
fn a_point_result_is_stored_under_its_own_keys() {
    let store = RecordingStore::new(None);
    let p = payload();
    let c = config();
    let key = store_point_result(&store, &p, &c, point_outputs(), &encode_record).unwrap();
    let keys = point_artifact_keys(&p, &c, 3);
    assert_eq!(key, keys.metrics);
    let writes = store.writes.into_inner();
    assert_eq!(writes.len(), 4);
    assert_eq!(writes[&keys.metrics], b"m".to_vec());
    assert_eq!(writes[&keys.trip_data], b"t".to_vec());
    assert_eq!(writes[&keys.snapshot_counts], b"s".to_vec());
    assert_eq!(writes[&keys.effective_parameters], b"run-123/3/fp".to_vec());
}

#[test]
fn a_point_result_stops_at_the_first_failure() {
    let store = RecordingStore::new(Some("dataset=trip_data"));
    let p = payload();
    let c = config();
    let err = store_point_result(&store, &p, &c, point_outputs(), &encode_record).unwrap_err();
    assert_eq!(err, "Failed to persist trip data artifact: access denied");
    assert_eq!(store.writes.into_inner().len(), 1);

    let store = RecordingStore::new(None);
    let failing = |_: &EffectiveParameterRecord| -> Result<Vec<u8>, String> { Err("bad".to_string()) };
    let err = store_point_result(&store, &p, &c, point_outputs(), &failing).unwrap_err();
    assert_eq!(err, "Failed to serialize effective-parameter parquet: bad");
    assert_eq!(store.writes.into_inner().len(), 3);
}
