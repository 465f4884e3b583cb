use ridesim::child::{
    after_failure_outcome_write, after_success_outcome_write, artifact_failure_message,
    check_child_bounds, effective_parameter_record, failure_outcome, point_artifact_keys,
    resolve_run_date, success_outcome, ArtifactKind, ChildHandlerConfig,
};
use std::cell::RefCell;
use std::collections::BTreeMap;
use std::sync::Arc;

use arrow::array::{ArrayRef, StringArray, UInt64Array};
use arrow::datatypes::{DataType, Field, Schema};
use arrow::record_batch::RecordBatch;
use parquet::arrow::ArrowWriter;
use ridesim::adapters::OutcomeStore;
use ridesim::child::{
    store_point_result, write_failure_outcome, write_success_outcome, ChildHandlerError,
    ChildSuccessResponse, PointOutputs,
};
use ridesim::contract::{ChildShardPayload, Dimensions, EffectiveParameterRecord};
use ridesim::record_columns::{
    effective_parameter_columns, outcome_columns, ColumnValues, RecordColumn,
};
use ridesim::storage_keys::{metrics_object_key, success_outcome_object_key};

fn sample_payload() -> ChildShardPayload {
    let mut dimensions = Dimensions::new();
    dimensions.insert("commission_rate".to_string(), vec!["0.1".to_string(), "0.2".to_string()]);
    dimensions.insert("num_drivers".to_string(), vec!["100".to_string(), "200".to_string()]);
    ChildShardPayload {
        run_id: "run-123".to_string(),
        run_date: Some("2026-02-14".to_string()),
        dimensions,
        total_points: 4,
        shard_id: 1,
        start_index: 2,
        end_index_exclusive: 4,
        seed: 42,
        failure_injection_shards: Vec::new(),
    }
}

fn sample_config() -> ChildHandlerConfig {
    ChildHandlerConfig {
        bucket: "local-bucket".to_string(),
        prefix: "serverless-sweeps/outcomes".to_string(),
        run_date: "2026-02-14".to_string(),
        event_time: "2026-02-14T00:00:00Z".to_string(),
    }
}

#[test]
fn run_date_prefers_payload_value() {
    let payload = sample_payload();
    assert_eq!(resolve_run_date(&payload, "2026-02-15"), "2026-02-14");
}

#[test]
fn run_date_falls_back_when_payload_missing() {
    let mut payload = sample_payload();
    payload.run_date = None;
    assert_eq!(resolve_run_date(&payload, "2026-02-15"), "2026-02-15");
}

#[test]
fn child_failure_does_not_overwrite_existing_success_outputs() {
    let payload = sample_payload();
    let config = sample_config();
    let success_metrics_key = metrics_object_key(
        &config.prefix,
        &config.run_date,
        &payload.run_id,
        "success",
        payload.shard_id,
        payload.start_index,
    );
    let success_outcome_key =
        success_outcome_object_key(&config.prefix, &config.run_date, &payload.run_id, payload.shard_id);
    let (failure_key, record) = failure_outcome(&payload, &config, "Injected shard failure for verification");
    assert!(failure_key.contains("dataset=shard_outcomes"));
    assert!(failure_key.contains("status_partition=failure"));
    assert_ne!(failure_key, success_metrics_key);
    assert_ne!(failure_key, success_outcome_key);
    assert_eq!(record.status, "failure");
    assert!(record.output_metadata.is_none());
    let error = record.error.expect("failure record carries its error");
    assert_eq!(error.error_code, "runtime_error");
    assert_eq!(error.error_message, "Injected shard failure for verification");
}

#[test]
fn effective_parameter_keys_match_metric_join_keys() {
    let payload = sample_payload();
    let config = sample_config();
    for point in payload.start_index..payload.end_index_exclusive {
        let keys = point_artifact_keys(&payload, &config, point);
        let metric_tail = format!("run_date=2026-02-14/run_id=run-123/status=success/shard_id=1/point_index={point}/part-0.parquet");
        let effective_tail = format!("run_date=2026-02-14/run_id_partition=run-123/status_partition=success/shard_id_partition=1/point_index_partition={point}/part-0.parquet");
        assert!(keys.metrics.ends_with(&metric_tail));
        assert!(keys.effective_parameters.ends_with(&effective_tail));
        assert!(keys.trip_data.contains("dataset=trip_data"));
        assert!(keys.snapshot_counts.contains("dataset=snapshot_counts"));
    }
}

#[test]
fn success_outcome_points_at_first_metrics_key_or_shard_start() {
    let payload = sample_payload();
    let config = sample_config();
    let (key, record) = success_outcome(&payload, &config, None, 2);
    assert!(key.ends_with("dataset=shard_outcomes/run_date=2026-02-14/run_id_partition=run-123/status_partition=success/shard_id_partition=1/part-0.parquet"));
    let meta = record.output_metadata.clone().unwrap();
    assert_eq!(meta.points_processed, 2);
    assert_eq!(meta.format, "parquet");
    assert!(meta.result_key.ends_with("shard_id=1/point_index=2/part-0.parquet"));
    assert_eq!(record.record_schema, "v1");
    assert_eq!(record.event_time, "2026-02-14T00:00:00Z");
    let (_, record) = success_outcome(&payload, &config, Some("first".to_string()), 2);
    assert_eq!(record.output_metadata.unwrap().result_key, "first");
}

#[test]
fn bounds_are_checked_before_any_work() {
    let mut payload = sample_payload();
    payload.start_index = 4;
    let e = check_child_bounds(&payload).unwrap_err();
    assert_eq!(e.message, "Invalid shard bounds");
    assert!(e.failure_key.is_none());
    let mut payload = sample_payload();
    payload.shard_id = 4;
    let e = check_child_bounds(&payload).unwrap_err();
    assert_eq!(e.message, "shard_id must be less than total_points");
    assert!(check_child_bounds(&sample_payload()).is_ok());
}

#[test]
fn success_write_failure_becomes_the_shard_error() {
    let payload = sample_payload();
    let ok = after_success_outcome_write(&payload, "k".to_string(), Ok(())).unwrap();
    assert_eq!(ok.status, "ok");
    assert_eq!(ok.shard_id, 1);
    let m = after_success_outcome_write(&payload, "k".to_string(), Err("denied".to_string())).unwrap_err();
    assert_eq!(m, "Failed to persist success outcome: denied");
    let e = after_failure_outcome_write("fk".to_string(), m.clone(), Ok(()));
    assert_eq!(e.message, m);
    assert_eq!(e.failure_key.as_deref(), Some("fk"));
    let e = after_failure_outcome_write("fk".to_string(), m, Err("gone".to_string()));
    assert_eq!(e.message, "Failed to persist failure outcome: gone");
}

#[test]
fn artifact_messages_name_the_artifact() {
    assert_eq!(
        artifact_failure_message(ArtifactKind::TripData, "x"),
        "Failed to persist trip data artifact: x"
    );
    let r = effective_parameter_record(&sample_payload(), 3, "fp".to_string(), "{}".to_string());
    assert_eq!(r.point_index, 3);
    assert_eq!(r.status, "success");
    assert_eq!(r.record_schema, "v1");
}

/// Keeps what is written, refusing keys that end with `denied_suffix`.
struct MemoryStore {
    writes: RefCell<BTreeMap<String, Vec<u8>>>,
    denied_suffix: Option<&'static str>,
}

impl MemoryStore {
    fn new(denied_suffix: Option<&'static str>) -> Self {
        MemoryStore { writes: RefCell::new(BTreeMap::new()), denied_suffix }
    }

    fn keys(&self) -> Vec<String> {
        self.writes.borrow().keys().cloned().collect()
    }

    fn body(&self, key: &str) -> Option<Vec<u8>> {
        self.writes.borrow().get(key).cloned()
    }
}

impl OutcomeStore for MemoryStore {
    fn write_object(&self, key: &str, body: &[u8]) -> Result<(), String> {
        if let Some(suffix) = self.denied_suffix {
            if key.ends_with(suffix) {
                return Err(format!("simulated write failure for key: {key}"));
            }
        }
        self.writes.borrow_mut().insert(key.to_string(), body.to_vec());
        Ok(())
    }

    fn delete_object(&self, key: &str) -> Result<(), String> {
        self.writes.borrow_mut().remove(key);
        Ok(())
    }
}

fn parquet(columns: Vec<RecordColumn>) -> Result<Vec<u8>, String> {
    let mut fields = Vec::new();
    let mut arrays: Vec<ArrayRef> = Vec::new();
    for column in columns {
        match column.values {
            ColumnValues::Text(cells) => {
                fields.push(Field::new(column.name, DataType::Utf8, column.nullable));
                arrays.push(Arc::new(StringArray::from(cells)));
            }
            ColumnValues::Unsigned(cells) => {
                fields.push(Field::new(column.name, DataType::UInt64, column.nullable));
                arrays.push(Arc::new(UInt64Array::from(cells)));
            }
        }
    }
    let schema = Arc::new(Schema::new(fields));
    let batch = RecordBatch::try_new(schema.clone(), arrays).map_err(|e| e.to_string())?;
    let mut writer = ArrowWriter::try_new(Vec::new(), schema, None).map_err(|e| e.to_string())?;
    writer.write(&batch).map_err(|e| e.to_string())?;
    writer.into_inner().map_err(|e| e.to_string())
}

fn encode_effective(record: &EffectiveParameterRecord) -> Result<Vec<u8>, String> {
    parquet(effective_parameter_columns(record))
}

/// The child's run of a shard, put together from the library's steps: every point of
/// the shard is stored (when `points_succeed`), then the success outcome is written; a
/// failure is recorded under the failure key.
fn run_child(
    payload: &ChildShardPayload,
    config: &ChildHandlerConfig,
    points_succeed: bool,
    store: &MemoryStore,
) -> Result<ChildSuccessResponse, ChildHandlerError> {
    check_child_bounds(payload)?;
    let success = (|| {
        if !points_succeed {
            return Err("Injected shard failure for verification".to_string());
        }
        let mut first_metrics_key = None;
        for point_index in payload.start_index..payload.end_index_exclusive {
            let outputs = PointOutputs {
                point_index,
                metrics_parquet: b"PAR1-metrics".to_vec(),
                trip_data_parquet: b"PAR1-trip".to_vec(),
                snapshot_counts_parquet: b"PAR1-snap".to_vec(),
                effective_parameters_json: format!("{{\"point_index\":{point_index}}}"),
                parameter_fingerprint: format!("fingerprint-{point_index}"),
            };
            let key = store_point_result(store, payload, config, outputs, &encode_effective)?;
            first_metrics_key.get_or_insert(key);
        }
        let points = payload.end_index_exclusive - payload.start_index;
        let (outcome_key, record) = success_outcome(payload, config, first_metrics_key, points);
        let body = parquet(outcome_columns(&record))?;
        write_success_outcome(store, payload, outcome_key, &body)
    })();
    match success {
        Ok(response) => Ok(response),
        Err(message) => {
            let (failure_key, record) = failure_outcome(payload, config, &message);
            let body = parquet(outcome_columns(&record)).unwrap();
            Err(write_failure_outcome(store, failure_key, message, &body))
        }
    }
}

#[test]
fn child_writes_success_outcome_envelope() {
    let store = MemoryStore::new(None);
    let response = run_child(&sample_payload(), &sample_config(), true, &store)
        .ok()
        .expect("child should succeed");

    assert_eq!(response.status, "ok");
    assert_eq!(store.keys().len(), 9);
    let keys = store.keys();
    assert!(keys.iter().any(|key| key.contains("status=success") && key.ends_with(".parquet")));
    assert!(keys.iter().any(|key| key.contains("dataset=shard_outcomes") && key.ends_with(".parquet")));
    assert!(keys.iter().any(|key| key.contains("dataset=trip_data") && key.ends_with(".parquet")));
    assert!(keys.iter().any(|key| key.contains("dataset=snapshot_counts") && key.ends_with(".parquet")));
    assert!(keys
        .iter()
        .any(|key| key.contains("dataset=effective_parameters") && key.ends_with(".parquet")));

    let parquet_key = keys
        .into_iter()
        .find(|key| key.contains("dataset=shard_metrics"))
        .expect("parquet artifact key should exist");
    let body = store.body(&parquet_key).expect("parquet body should exist for key");
    assert!(body.starts_with(b"PAR1"));
}

#[test]
fn child_writes_failure_outcome_envelope() {
    let store = MemoryStore::new(None);
    let error = run_child(&sample_payload(), &sample_config(), false, &store)
        .err()
        .expect("child should fail");

    assert!(error
        .failure_key
        .expect("failure key should exist")
        .contains("status_partition=failure"));
    assert_eq!(store.keys().len(), 1);
    assert!(store.keys()[0].contains("dataset=shard_outcomes"));

    let failure_key = store.keys()[0].clone();
    let failure_record = store.body(&failure_key).expect("failure body should exist for key");
    assert!(failure_record.starts_with(b"PAR1"));
}

#[test]
fn child_persists_failure_record_when_success_outcome_write_fails() {
    let store = MemoryStore::new(Some("dataset=shard_outcomes/run_date=2026-02-14/run_id_partition=run-123/status_partition=success/shard_id_partition=1/part-0.parquet"));
    let payload = sample_payload();
    let config = sample_config();

    let error = run_child(&payload, &config, true, &store)
        .err()
        .expect("child should return failure when success outcome write fails");

    assert!(error.message.contains("Failed to persist success outcome"));
    let failure_key = error.failure_key.expect("failure key should exist");
    assert!(failure_key.contains("dataset=shard_outcomes"));

    assert!(store
        .keys()
        .iter()
        .any(|key| key.contains("status_partition=success") && key.ends_with(".parquet")));
    assert!(store.keys().iter().any(|key| key == &failure_key));

    let failure_record = store.body(&failure_key).expect("failure body should exist for key");
    assert!(failure_record.starts_with(b"PAR1"));
}
