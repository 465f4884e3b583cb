use vstd::prelude::*;
use crate::contract::{
    ChildShardPayload, EffectiveParameterRecord, OutcomeError, ShardOutcomeRecord,
    ShardOutputMetadata, EFFECTIVE_PARAMETER_RECORD_SCHEMA_VERSION, OUTCOME_RECORD_SCHEMA_VERSION,
};
use crate::storage_keys::{
    effective_parameters_object_key, error_object_key, metrics_object_key,
    snapshot_counts_object_key, spec_outcome_object_key, spec_partition_prefix,
    spec_point_object_key, success_outcome_object_key, trip_data_object_key, DatasetKind,
};
use crate::adapters::{store_answered, OutcomeStore};
use crate::text::{owned, push_str};

verus! {

/// Where and when a child writes its outcomes.
#[derive(Debug, Clone, PartialEq, Eq)]
pub struct ChildHandlerConfig {
    pub bucket: String,
    pub prefix: String,
    pub run_date: String,
    pub event_time: String,
}

/// A shard that was processed and whose outcome was written.
#[derive(Debug, Clone, PartialEq, Eq)]
pub struct ChildSuccessResponse {
    pub status: String,
    pub shard_id: usize,
    pub outcome_key: String,
}

/// A shard that could not be processed; `failure_key` names its failure record, if one
/// was due.
#[derive(Debug, Clone, PartialEq, Eq)]
pub struct ChildHandlerError {
    pub message: String,
    pub failure_key: Option<String>,
}

/// The message of a payload that no child may run, if it is one.
pub open spec fn bounds_error(payload: ChildShardPayload) -> Option<Seq<char>> {
    if payload.start_index >= payload.end_index_exclusive {
        Some("Invalid shard bounds"@)
    } else if payload.shard_id >= payload.total_points {
        Some("shard_id must be less than total_points"@)
    } else {
        None
    }
}

/// Refuses a payload whose range is empty or whose shard id is not below the number of
/// points; such a refusal names no failure record.
pub fn check_child_bounds(payload: &ChildShardPayload) -> (res: Result<(), ChildHandlerError>)
    ensures
        match res {
            Ok(()) => bounds_error(*payload) is None,
            Err(e) => bounds_error(*payload) == Some(e.message@) && e.failure_key is None,
        },
{
    if payload.start_index >= payload.end_index_exclusive {
        return Err(ChildHandlerError { message: owned("Invalid shard bounds"), failure_key: None });
    }
    if payload.shard_id >= payload.total_points {
        return Err(
            ChildHandlerError {
                message: owned("shard_id must be less than total_points"),
                failure_key: None,
            },
        );
    }
    Ok(())
}

/// The keys of the four artifacts of one parameter point of a successful shard.
#[derive(Debug, Clone, PartialEq, Eq)]
pub struct PointArtifactKeys {
    pub metrics: String,
    pub trip_data: String,
    pub snapshot_counts: String,
    pub effective_parameters: String,
}

/// The key of artifact `kind` of point `point_index` of a successful shard.
pub open spec fn artifact_key(
    payload: ChildShardPayload,
    config: ChildHandlerConfig,
    kind: ArtifactKind,
    point_index: nat,
) -> Seq<char> {
    let prefix = |d: DatasetKind|
        spec_partition_prefix(config.prefix@, d, config.run_date@, payload.run_id@, "success"@);
    match kind {
        ArtifactKind::ShardMetrics => spec_point_object_key(
            prefix(DatasetKind::ShardMetrics),
            payload.shard_id as nat,
            point_index,
        ),
        ArtifactKind::TripData => spec_point_object_key(
            prefix(DatasetKind::TripData),
            payload.shard_id as nat,
            point_index,
        ),
        ArtifactKind::SnapshotCounts => spec_point_object_key(
            prefix(DatasetKind::SnapshotCounts),
            payload.shard_id as nat,
            point_index,
        ),
        ArtifactKind::EffectiveParameters => prefix(DatasetKind::EffectiveParameters)
            + "/shard_id_partition="@ + crate::text::decimal(payload.shard_id as nat)
            + "/point_index_partition="@ + crate::text::decimal(point_index) + "/part-0.parquet"@,
    }
}

/// The keys under which the artifacts of point `point_index` of the shard are written.
pub fn point_artifact_keys(
    payload: &ChildShardPayload,
    config: &ChildHandlerConfig,
    point_index: usize,
) -> (keys: PointArtifactKeys)
    ensures
        keys.metrics@ == artifact_key(*payload, *config, ArtifactKind::ShardMetrics, point_index as nat),
        keys.trip_data@ == artifact_key(*payload, *config, ArtifactKind::TripData, point_index as nat),
        keys.snapshot_counts@ == artifact_key(
            *payload,
            *config,
            ArtifactKind::SnapshotCounts,
            point_index as nat,
        ),
        keys.effective_parameters@ == artifact_key(
            *payload,
            *config,
            ArtifactKind::EffectiveParameters,
            point_index as nat,
        ),
{
    PointArtifactKeys {
        metrics: metrics_object_key(
            config.prefix.as_str(),
            config.run_date.as_str(),
            payload.run_id.as_str(),
            "success",
            payload.shard_id,
            point_index,
        ),
        trip_data: trip_data_object_key(
            config.prefix.as_str(),
            config.run_date.as_str(),
            payload.run_id.as_str(),
            "success",
            payload.shard_id,
            point_index,
        ),
        snapshot_counts: snapshot_counts_object_key(
            config.prefix.as_str(),
            config.run_date.as_str(),
            payload.run_id.as_str(),
            "success",
            payload.shard_id,
            point_index,
        ),
        effective_parameters: effective_parameters_object_key(
            config.prefix.as_str(),
            config.run_date.as_str(),
            payload.run_id.as_str(),
            "success",
            payload.shard_id,
            point_index,
        ),
    }
}

/// The effective-parameters record of one point of a successful shard.
pub fn effective_parameter_record(
    payload: &ChildShardPayload,
    point_index: usize,
    parameter_fingerprint: String,
    effective_parameters_json: String,
) -> (r: EffectiveParameterRecord)
    ensures
        r.run_id@ == payload.run_id@,
        r.shard_id == payload.shard_id,
        r.point_index == point_index,
        r.status@ == "success"@,
        r.record_schema@ == EFFECTIVE_PARAMETER_RECORD_SCHEMA_VERSION@,
        r.parameter_fingerprint == parameter_fingerprint,
        r.effective_parameters_json == effective_parameters_json,
{
    EffectiveParameterRecord {
        run_id: payload.run_id.clone(),
        shard_id: payload.shard_id,
        point_index,
        status: owned("success"),
        record_schema: owned(EFFECTIVE_PARAMETER_RECORD_SCHEMA_VERSION),
        parameter_fingerprint,
        effective_parameters_json,
    }
}

/// An artifact whose write can fail while a shard's points are stored.
#[derive(Debug, Clone, Copy, PartialEq, Eq)]
pub enum ArtifactKind {
    ShardMetrics,
    TripData,
    SnapshotCounts,
    EffectiveParameters,
}

pub open spec fn artifact_failure_prefix(kind: ArtifactKind) -> Seq<char> {
    match kind {
        ArtifactKind::ShardMetrics => "Failed to persist shard metrics artifact: "@,
        ArtifactKind::TripData => "Failed to persist trip data artifact: "@,
        ArtifactKind::SnapshotCounts => "Failed to persist snapshot counts artifact: "@,
        ArtifactKind::EffectiveParameters => "Failed to persist effective-parameter artifact: "@,
    }
}

/// The message of a failed artifact write, naming the artifact and the store's error.
pub fn artifact_failure_message(kind: ArtifactKind, error: &str) -> (m: String)
    ensures
        m@ == artifact_failure_prefix(kind) + error@,
{
    let mut m = match kind {
        ArtifactKind::ShardMetrics => owned("Failed to persist shard metrics artifact: "),
        ArtifactKind::TripData => owned("Failed to persist trip data artifact: "),
        ArtifactKind::SnapshotCounts => owned("Failed to persist snapshot counts artifact: "),
        ArtifactKind::EffectiveParameters => owned(
            "Failed to persist effective-parameter artifact: ",
        ),
    };
    push_str(&mut m, error);
    m
}

/// The message of a failed write of artifact `kind` whose store answered `error`.
pub open spec fn artifact_failure_text(kind: ArtifactKind, error: Seq<char>) -> Seq<char> {
    artifact_failure_prefix(kind) + error
}

/// How a point's artifact write ends once the store answered `answer`: done when the
/// store took it, else refused with a message that names the artifact and carries the
/// store's error.
pub open spec fn artifact_write_result(
    kind: ArtifactKind,
    answer: Result<(), String>,
    res: Result<(), String>,
) -> bool {
    match (answer, res) {
        (Ok(()), Ok(())) => true,
        (Err(e), Err(m)) => m@ == artifact_failure_text(kind, e@),
        _ => false,
    }
}

/// Writes one artifact of a point: `body` is handed to the store under `key`, and the
/// store's answer decides the result.
pub fn store_artifact<S: OutcomeStore>(store: &S, kind: ArtifactKind, key: &str, body: &[u8]) -> (res:
    Result<(), String>)
    ensures
        exists|answer: Result<(), String>|
            #[trigger] store_answered(store, key@, body@, answer) && artifact_write_result(
                kind,
                answer,
                res,
            ),
{
    let answer = store.write_object(key, body);
    let ghost a = answer;
    let res = match answer {
        Ok(()) => Ok(()),
        Err(e) => {
            let m = artifact_failure_message(kind, e.as_str());
            assert(m@ == artifact_failure_text(kind, e@));
            Err(m)
        },
    };
    assert(store_answered(store, key@, body@, a));
    res
}

/// How the writes of a point's metrics, trip data and snapshot counts end, in that order:
/// each write is made only after the one before was taken, and the first refusal is the
/// result.
pub open spec fn point_outputs_written<S: OutcomeStore>(
    store: &S,
    metrics_key: Seq<char>,
    trip_data_key: Seq<char>,
    snapshot_counts_key: Seq<char>,
    metrics_body: Seq<u8>,
    trip_data_body: Seq<u8>,
    snapshot_counts_body: Seq<u8>,
    res: Result<(), String>,
) -> bool {
    exists|a1: Result<(), String>|
        #[trigger] store_answered(store, metrics_key, metrics_body, a1) && match a1 {
            Err(e) => artifact_write_result(ArtifactKind::ShardMetrics, a1, res),
            Ok(()) => exists|a2: Result<(), String>|
                #[trigger] store_answered(store, trip_data_key, trip_data_body, a2) && match a2 {
                    Err(e) => artifact_write_result(ArtifactKind::TripData, a2, res),
                    Ok(()) => exists|a3: Result<(), String>|
                        #[trigger] store_answered(store, snapshot_counts_key, snapshot_counts_body, a3)
                            && artifact_write_result(ArtifactKind::SnapshotCounts, a3, res),
                },
        }
}

/// Writes the metrics, trip data and snapshot counts of a point, each under its own key
/// and in that order, and stops at the first refused write, whose message names the
/// artifact.
pub fn store_point_outputs<S: OutcomeStore>(
    store: &S,
    keys: &PointArtifactKeys,
    metrics_body: &[u8],
    trip_data_body: &[u8],
    snapshot_counts_body: &[u8],
) -> (res: Result<(), String>)
    ensures
        point_outputs_written(
            store,
            keys.metrics@,
            keys.trip_data@,
            keys.snapshot_counts@,
            metrics_body@,
            trip_data_body@,
            snapshot_counts_body@,
            res,
        ),
        res matches Err(m) ==> exists|k: ArtifactKind, e: Seq<char>|
            k != ArtifactKind::EffectiveParameters && m@ == #[trigger] artifact_failure_text(k, e),
{
    let r = store_artifact(store, ArtifactKind::ShardMetrics, keys.metrics.as_str(), metrics_body);
    if r.is_err() {
        return r;
    }
    let r = store_artifact(store, ArtifactKind::TripData, keys.trip_data.as_str(), trip_data_body);
    if r.is_err() {
        return r;
    }
    store_artifact(
        store,
        ArtifactKind::SnapshotCounts,
        keys.snapshot_counts.as_str(),
        snapshot_counts_body,
    )
}

/// What one parameter point of a shard produced: its artifacts, already encoded, and its
/// effective parameters.
pub struct PointOutputs {
    pub point_index: usize,
    pub metrics_parquet: Vec<u8>,
    pub trip_data_parquet: Vec<u8>,
    pub snapshot_counts_parquet: Vec<u8>,
    pub effective_parameters_json: String,
    pub parameter_fingerprint: String,
}

/// `r` is the effective-parameters record of `point` of the shard.
pub open spec fn is_effective_record_of(
    payload: ChildShardPayload,
    point: PointOutputs,
    r: EffectiveParameterRecord,
) -> bool {
    &&& r.run_id@ == payload.run_id@
    &&& r.shard_id == payload.shard_id
    &&& r.point_index == point.point_index
    &&& r.status@ == "success"@
    &&& r.record_schema@ == EFFECTIVE_PARAMETER_RECORD_SCHEMA_VERSION@
    &&& r.parameter_fingerprint == point.parameter_fingerprint
    &&& r.effective_parameters_json == point.effective_parameters_json
}

/// How the effective-parameters artifact of `point` ends: its record is encoded with
/// `encode`, and the bytes are written under the point's key; a failed encoding or a
/// refused write is the result.
pub open spec fn effective_parameters_written<
    S: OutcomeStore,
    F: Fn(&EffectiveParameterRecord) -> Result<Vec<u8>, String>,
>(
    store: &S,
    encode: &F,
    payload: ChildShardPayload,
    config: ChildHandlerConfig,
    point: PointOutputs,
    res: Result<(), String>,
) -> bool {
    exists|r: EffectiveParameterRecord, enc: Result<Vec<u8>, String>|
        is_effective_record_of(payload, point, r) && #[trigger] encode.ensures((&r,), enc)
            && match enc {
            Err(e) => res matches Err(m) && m@ == "Failed to serialize effective-parameter parquet: "@
                + e@,
            Ok(b) => exists|a: Result<(), String>|
                #[trigger] store_answered(
                    store,
                    artifact_key(payload, config, ArtifactKind::EffectiveParameters, point.point_index as nat),
                    b@,
                    a,
                ) && artifact_write_result(ArtifactKind::EffectiveParameters, a, res),
        }
}

/// Stores everything one point of a successful shard produced: its metrics, trip data and
/// snapshot counts in that order, then its effective-parameters record, encoded with
/// `encode`, each under the point's own key. Stops at the first failure; otherwise
/// answers with the point's metrics key.
pub fn store_point_result<S: OutcomeStore, F: Fn(&EffectiveParameterRecord) -> Result<Vec<u8>, String>>(
    store: &S,
    payload: &ChildShardPayload,
    config: &ChildHandlerConfig,
    point: PointOutputs,
    encode: &F,
) -> (res: Result<String, String>)
    requires
        forall|r: &EffectiveParameterRecord| encode.requires((r,)),
    ensures
        exists|outputs: Result<(), String>|
            #[trigger] point_outputs_written(
                store,
                artifact_key(*payload, *config, ArtifactKind::ShardMetrics, point.point_index as nat),
                artifact_key(*payload, *config, ArtifactKind::TripData, point.point_index as nat),
                artifact_key(*payload, *config, ArtifactKind::SnapshotCounts, point.point_index as nat),
                point.metrics_parquet@,
                point.trip_data_parquet@,
                point.snapshot_counts_parquet@,
                outputs,
            ) && match outputs {
                Err(m) => res == Err::<String, String>(m),
                Ok(()) => exists|last: Result<(), String>|
                    #[trigger] effective_parameters_written(store, encode, *payload, *config, point, last)
                        && match last {
                        Err(m) => res == Err::<String, String>(m),
                        Ok(()) => res matches Ok(k) && k@ == artifact_key(
                            *payload,
                            *config,
                            ArtifactKind::ShardMetrics,
                            point.point_index as nat,
                        ),
                    },
            },
{
    let ghost pt = point;
    let keys = point_artifact_keys(payload, config, point.point_index);
    let outputs = store_point_outputs(
        store,
        &keys,
        point.metrics_parquet.as_slice(),
        point.trip_data_parquet.as_slice(),
        point.snapshot_counts_parquet.as_slice(),
    );
    let ghost ov = outputs;
    match outputs {
        Err(m) => {
            return Err(m);
        },
        Ok(()) => {},
    }
    assert(ov->Ok_0 == ());
    let record = effective_parameter_record(
        payload,
        point.point_index,
        point.parameter_fingerprint,
        point.effective_parameters_json,
    );
    let encoded = encode(&record);
    let ghost ev = encoded;
    let body = match encoded {
        Ok(b) => b,
        Err(e) => {
            let mut m = owned("Failed to serialize effective-parameter parquet: ");
            push_str(&mut m, e.as_str());
            assert(effective_parameters_written(store, encode, *payload, *config, pt, Err(m)));
            return Err(m);
        },
    };
    let last = store_artifact(
        store,
        ArtifactKind::EffectiveParameters,
        keys.effective_parameters.as_str(),
        body.as_slice(),
    );
    let ghost lv = last;
    assert(effective_parameters_written(store, encode, *payload, *config, pt, lv));
    match last {
        Err(m) => Err(m),
        Ok(()) => {
            assert(lv->Ok_0 == ());
            Ok(keys.metrics)
        },
    }
}

/// The outcome record of a shard, with the fields every outcome shares.
fn outcome_record(
    payload: &ChildShardPayload,
    config: &ChildHandlerConfig,
    status: &str,
    output_metadata: Option<ShardOutputMetadata>,
    error: Option<OutcomeError>,
) -> (r: ShardOutcomeRecord)
    ensures
        r.run_id@ == payload.run_id@,
        r.shard_id == payload.shard_id,
        r.status@ == status@,
        r.start_index == payload.start_index,
        r.end_index_exclusive == payload.end_index_exclusive,
        r.event_time@ == config.event_time@,
        r.record_schema@ == OUTCOME_RECORD_SCHEMA_VERSION@,
        r.output_metadata == output_metadata,
        r.error == error,
{
    ShardOutcomeRecord {
        run_id: payload.run_id.clone(),
        shard_id: payload.shard_id,
        status: owned(status),
        start_index: payload.start_index,
        end_index_exclusive: payload.end_index_exclusive,
        event_time: config.event_time.clone(),
        record_schema: owned(OUTCOME_RECORD_SCHEMA_VERSION),
        output_metadata,
        error,
    }
}

/// The key and record of a successful shard's outcome: its results are found from the
/// metrics key of the first point written, or else of the shard's first point.
pub fn success_outcome(
    payload: &ChildShardPayload,
    config: &ChildHandlerConfig,
    first_metrics_key: Option<String>,
    points_processed: usize,
) -> (res: (String, ShardOutcomeRecord))
    ensures
        res.0@ == spec_outcome_object_key(
            spec_partition_prefix(config.prefix@, DatasetKind::ShardOutcomes, config.run_date@, payload.run_id@, "success"@),
            payload.shard_id as nat,
        ),
        res.1.run_id@ == payload.run_id@,
        res.1.shard_id == payload.shard_id,
        res.1.status@ == "success"@,
        res.1.start_index == payload.start_index,
        res.1.end_index_exclusive == payload.end_index_exclusive,
        res.1.event_time@ == config.event_time@,
        res.1.record_schema@ == OUTCOME_RECORD_SCHEMA_VERSION@,
        res.1.error is None,
        res.1.output_metadata is Some,
        res.1.output_metadata->0.points_processed == points_processed,
        res.1.output_metadata->0.format@ == "parquet"@,
        res.1.output_metadata->0.result_key@ == match first_metrics_key {
            Some(k) => k@,
            None => spec_point_object_key(
                spec_partition_prefix(config.prefix@, DatasetKind::ShardMetrics, config.run_date@, payload.run_id@, "success"@),
                payload.shard_id as nat,
                payload.start_index as nat,
            ),
        },
{
    let result_key = match first_metrics_key {
        Some(k) => k,
        None => metrics_object_key(
            config.prefix.as_str(),
            config.run_date.as_str(),
            payload.run_id.as_str(),
            "success",
            payload.shard_id,
            payload.start_index,
        ),
    };
    let key = success_outcome_object_key(
        config.prefix.as_str(),
        config.run_date.as_str(),
        payload.run_id.as_str(),
        payload.shard_id,
    );
    let metadata = ShardOutputMetadata { result_key, points_processed, format: owned("parquet") };
    let record = outcome_record(payload, config, "success", Some(metadata), None);
    (key, record)
}

/// The key and record of a failed shard's outcome, carrying the failure's message.
pub fn failure_outcome(payload: &ChildShardPayload, config: &ChildHandlerConfig, message: &str) -> (res:
    (String, ShardOutcomeRecord))
    ensures
        res.0@ == spec_outcome_object_key(
            spec_partition_prefix(config.prefix@, DatasetKind::ShardOutcomes, config.run_date@, payload.run_id@, "failure"@),
            payload.shard_id as nat,
        ),
        res.1.run_id@ == payload.run_id@,
        res.1.shard_id == payload.shard_id,
        res.1.status@ == "failure"@,
        res.1.start_index == payload.start_index,
        res.1.end_index_exclusive == payload.end_index_exclusive,
        res.1.event_time@ == config.event_time@,
        res.1.record_schema@ == OUTCOME_RECORD_SCHEMA_VERSION@,
        res.1.output_metadata is None,
        res.1.error is Some,
        res.1.error->0.error_code@ == "runtime_error"@,
        res.1.error->0.error_message@ == message@,
{
    let key = error_object_key(
        config.prefix.as_str(),
        config.run_date.as_str(),
        payload.run_id.as_str(),
        payload.shard_id,
    );
    let error = OutcomeError {
        error_code: owned("runtime_error"),
        error_message: owned(message),
    };
    let record = outcome_record(payload, config, "failure", None, Some(error));
    (key, record)
}

/// What follows the write of a success outcome: the shard's answer, or, when the write
/// failed, the message with which the shard fails.
pub fn after_success_outcome_write(
    payload: &ChildShardPayload,
    outcome_key: String,
    write: Result<(), String>,
) -> (res: Result<ChildSuccessResponse, String>)
    ensures
        match (write, res) {
            (Ok(()), Ok(r)) => r.status@ == "ok"@ && r.shard_id == payload.shard_id && r.outcome_key
                == outcome_key,
            (Err(e), Err(m)) => m@ == "Failed to persist success outcome: "@ + e@,
            _ => false,
        },
{
    match write {
        Ok(()) => Ok(
            ChildSuccessResponse { status: owned("ok"), shard_id: payload.shard_id, outcome_key },
        ),
        Err(e) => {
            let mut m = owned("Failed to persist success outcome: ");
            push_str(&mut m, e.as_str());
            Err(m)
        },
    }
}

/// The error a failed shard answers with once its failure record was written, or not:
/// it always names the failure record's key.
pub fn after_failure_outcome_write(
    failure_key: String,
    message: String,
    write: Result<(), String>,
) -> (e: ChildHandlerError)
    ensures
        e.failure_key == Some(failure_key),
        match write {
            Ok(()) => e.message == message,
            Err(w) => e.message@ == "Failed to persist failure outcome: "@ + w@,
        },
{
    match write {
        Ok(()) => ChildHandlerError { message, failure_key: Some(failure_key) },
        Err(w) => {
            let mut m = owned("Failed to persist failure outcome: ");
            push_str(&mut m, w.as_str());
            ChildHandlerError { message: m, failure_key: Some(failure_key) }
        },
    }
}

/// Writes the success outcome of a shard: `body` is handed to the store under
/// `outcome_key`; the shard's answer when the store took it, else the message with which
/// the shard fails.
pub fn write_success_outcome<S: OutcomeStore>(
    store: &S,
    payload: &ChildShardPayload,
    outcome_key: String,
    body: &[u8],
) -> (res: Result<ChildSuccessResponse, String>)
    ensures
        exists|answer: Result<(), String>|
            #[trigger] store_answered(store, outcome_key@, body@, answer) && match (answer, res) {
                (Ok(()), Ok(r)) => r.status@ == "ok"@ && r.shard_id == payload.shard_id
                    && r.outcome_key == outcome_key,
                (Err(e), Err(m)) => m@ == success_write_failure_text(e@),
                _ => false,
            },
{
    let ghost key = outcome_key@;
    let write = store.write_object(outcome_key.as_str(), body);
    let ghost w = write;
    proof {
        assert(store_answered(store, key, body@, w));
    }
    let res = after_success_outcome_write(payload, outcome_key, write);
    res
}

/// The message of a shard whose success outcome the store refused with `error`.
pub open spec fn success_write_failure_text(error: Seq<char>) -> Seq<char> {
    "Failed to persist success outcome: "@ + error
}

/// The message of a shard whose failure outcome the store refused with `error`.
pub open spec fn failure_write_failure_text(error: Seq<char>) -> Seq<char> {
    "Failed to persist failure outcome: "@ + error
}

/// Writes the failure outcome of a shard: `body` is handed to the store under
/// `failure_key`, and the shard's error names that key. Its message is the shard's own
/// when the store took the record, else that of the refused write.
pub fn write_failure_outcome<S: OutcomeStore>(
    store: &S,
    failure_key: String,
    message: String,
    body: &[u8],
) -> (e: ChildHandlerError)
    ensures
        e.failure_key == Some(failure_key),
        exists|answer: Result<(), String>|
            #[trigger] store_answered(store, failure_key@, body@, answer) && match answer {
                Ok(()) => e.message == message,
                Err(w) => e.message@ == failure_write_failure_text(w@),
            },
{
    let ghost key = failure_key@;
    let write = store.write_object(failure_key.as_str(), body);
    let ghost w = write;
    proof {
        assert(store_answered(store, key, body@, w));
    }
    after_failure_outcome_write(failure_key, message, write)
}

/// The run date of a payload: its own when it carries one, else the fallback.
pub fn resolve_run_date(payload: &ChildShardPayload, fallback_run_date: &str) -> (d: String)
    ensures
        d@ == match payload.run_date {
            Some(r) => r@,
            None => fallback_run_date@,
        },
{
    match &payload.run_date {
        Some(r) => r.clone(),
        None => owned(fallback_run_date),
    }
}

} // verus!
