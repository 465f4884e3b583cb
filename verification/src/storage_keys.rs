use vstd::prelude::*;
use crate::text::{
    decimal, push_decimal, push_str, trim_set, trimmed, TrimSet,
};

verus! {

/// The datasets whose objects the sweep writes to storage.
#[derive(Debug, Clone, Copy, PartialEq, Eq)]
pub enum DatasetKind {
    ShardMetrics,
    TripData,
    SnapshotCounts,
    ShardOutcomes,
    RunContext,
    EffectiveParameters,
}

/// The name under which a dataset appears in its partition path.
pub open spec fn dataset_name(dataset: DatasetKind) -> Seq<char> {
    match dataset {
        DatasetKind::ShardMetrics => "shard_metrics"@,
        DatasetKind::TripData => "trip_data"@,
        DatasetKind::SnapshotCounts => "snapshot_counts"@,
        DatasetKind::ShardOutcomes => "shard_outcomes"@,
        DatasetKind::RunContext => "run_context"@,
        DatasetKind::EffectiveParameters => "effective_parameters"@,
    }
}

/// Datasets whose run-id and status partitions carry the `_partition` suffix.
pub open spec fn spec_uses_partition_suffix_keys(dataset: DatasetKind) -> bool {
    dataset == DatasetKind::ShardOutcomes || dataset == DatasetKind::RunContext || dataset
        == DatasetKind::EffectiveParameters
}

pub open spec fn run_id_key(dataset: DatasetKind) -> Seq<char> {
    if spec_uses_partition_suffix_keys(dataset) {
        "run_id_partition"@
    } else {
        "run_id"@
    }
}

pub open spec fn status_key(dataset: DatasetKind) -> Seq<char> {
    if spec_uses_partition_suffix_keys(dataset) {
        "status_partition"@
    } else {
        "status"@
    }
}

/// `{base}/dataset={name}/run_date={date}/{run_id_key}={run_id}/{status_key}={status}`,
/// with `/` trimmed from both ends of `base`.
pub open spec fn spec_partition_prefix(
    base_prefix: Seq<char>,
    dataset: DatasetKind,
    run_date: Seq<char>,
    run_id: Seq<char>,
    status: Seq<char>,
) -> Seq<char> {
    trimmed(base_prefix, TrimSet::Slash) + "/dataset="@ + dataset_name(dataset) + "/run_date="@
        + run_date + "/"@ + run_id_key(dataset) + "="@ + run_id + "/"@ + status_key(dataset) + "="@
        + status
}

/// The object path of one parameter point below a partition prefix:
/// `{prefix}/shard_id={shard}/point_index={point}/part-0.parquet`.
pub open spec fn spec_point_object_key(prefix: Seq<char>, shard_id: nat, point_index: nat) -> Seq<
    char,
> {
    prefix + "/shard_id="@ + decimal(shard_id) + "/point_index="@ + decimal(point_index)
        + "/part-0.parquet"@
}

/// The object path of a shard outcome below a partition prefix:
/// `{prefix}/shard_id_partition={shard}/part-0.parquet`.
pub open spec fn spec_outcome_object_key(prefix: Seq<char>, shard_id: nat) -> Seq<char> {
    prefix + "/shard_id_partition="@ + decimal(shard_id) + "/part-0.parquet"@
}

impl DatasetKind {
    /// The dataset's name in partition paths.
    pub fn as_str(self) -> (s: &'static str)
        ensures
            s@ == dataset_name(self),
    {
        match self {
            DatasetKind::ShardMetrics => "shard_metrics",
            DatasetKind::TripData => "trip_data",
            DatasetKind::SnapshotCounts => "snapshot_counts",
            DatasetKind::ShardOutcomes => "shard_outcomes",
            DatasetKind::RunContext => "run_context",
            DatasetKind::EffectiveParameters => "effective_parameters",
        }
    }

    /// Whether the dataset's run-id and status partitions carry the `_partition` suffix.
    pub fn uses_partition_suffix_keys(self) -> (b: bool)
        ensures
            b == spec_uses_partition_suffix_keys(self),
    {
        match self {
            DatasetKind::ShardOutcomes | DatasetKind::RunContext
            | DatasetKind::EffectiveParameters => true,
            _ => false,
        }
    }
}

/// The partition prefix of a dataset for one run date, run and status.
pub fn partition_prefix(
    base_prefix: &str,
    dataset: DatasetKind,
    run_date: &str,
    run_id: &str,
    status: &str,
) -> (key: String)
    ensures
        key@ == spec_partition_prefix(base_prefix@, dataset, run_date@, run_id@, status@),
{
    let mut key = trim_set(base_prefix, TrimSet::Slash);
    let suffixed = dataset.uses_partition_suffix_keys();
    let run_id_key = if suffixed {
        "run_id_partition"
    } else {
        "run_id"
    };
    let status_key = if suffixed {
        "status_partition"
    } else {
        "status"
    };
    push_str(&mut key, "/dataset=");
    push_str(&mut key, dataset.as_str());
    push_str(&mut key, "/run_date=");
    push_str(&mut key, run_date);
    push_str(&mut key, "/");
    push_str(&mut key, run_id_key);
    push_str(&mut key, "=");
    push_str(&mut key, run_id);
    push_str(&mut key, "/");
    push_str(&mut key, status_key);
    push_str(&mut key, "=");
    push_str(&mut key, status);
    key
}

fn point_object_key(mut prefix: String, shard_id: usize, point_index: usize) -> (key: String)
    ensures
        key@ == spec_point_object_key(prefix@, shard_id as nat, point_index as nat),
{
    push_str(&mut prefix, "/shard_id=");
    push_decimal(&mut prefix, shard_id as u64);
    push_str(&mut prefix, "/point_index=");
    push_decimal(&mut prefix, point_index as u64);
    push_str(&mut prefix, "/part-0.parquet");
    prefix
}

fn outcome_object_key(mut prefix: String, shard_id: usize) -> (key: String)
    ensures
        key@ == spec_outcome_object_key(prefix@, shard_id as nat),
{
    push_str(&mut prefix, "/shard_id_partition=");
    push_decimal(&mut prefix, shard_id as u64);
    push_str(&mut prefix, "/part-0.parquet");
    prefix
}

/// Key of the metrics artifact of one parameter point.
pub fn metrics_object_key(
    base_prefix: &str,
    run_date: &str,
    run_id: &str,
    status: &str,
    shard_id: usize,
    point_index: usize,
) -> (key: String)
    ensures
        key@ == spec_point_object_key(
            spec_partition_prefix(base_prefix@, DatasetKind::ShardMetrics, run_date@, run_id@, status@),
            shard_id as nat,
            point_index as nat,
        ),
{
    let prefix = partition_prefix(base_prefix, DatasetKind::ShardMetrics, run_date, run_id, status);
    point_object_key(prefix, shard_id, point_index)
}

/// Key of the trip-data artifact of one parameter point.
pub fn trip_data_object_key(
    base_prefix: &str,
    run_date: &str,
    run_id: &str,
    status: &str,
    shard_id: usize,
    point_index: usize,
) -> (key: String)
    ensures
        key@ == spec_point_object_key(
            spec_partition_prefix(base_prefix@, DatasetKind::TripData, run_date@, run_id@, status@),
            shard_id as nat,
            point_index as nat,
        ),
{
    let prefix = partition_prefix(base_prefix, DatasetKind::TripData, run_date, run_id, status);
    point_object_key(prefix, shard_id, point_index)
}

/// Key of the snapshot-counts artifact of one parameter point.
pub fn snapshot_counts_object_key(
    base_prefix: &str,
    run_date: &str,
    run_id: &str,
    status: &str,
    shard_id: usize,
    point_index: usize,
) -> (key: String)
    ensures
        key@ == spec_point_object_key(
            spec_partition_prefix(base_prefix@, DatasetKind::SnapshotCounts, run_date@, run_id@, status@),
            shard_id as nat,
            point_index as nat,
        ),
{
    let prefix = partition_prefix(
        base_prefix,
        DatasetKind::SnapshotCounts,
        run_date,
        run_id,
        status,
    );
    point_object_key(prefix, shard_id, point_index)
}

/// Key of the outcome record of a shard that succeeded.
pub fn success_outcome_object_key(
    base_prefix: &str,
    run_date: &str,
    run_id: &str,
    shard_id: usize,
) -> (key: String)
    ensures
        key@ == spec_outcome_object_key(
            spec_partition_prefix(base_prefix@, DatasetKind::ShardOutcomes, run_date@, run_id@, "success"@),
            shard_id as nat,
        ),
{
    let prefix = partition_prefix(
        base_prefix,
        DatasetKind::ShardOutcomes,
        run_date,
        run_id,
        "success",
    );
    outcome_object_key(prefix, shard_id)
}

/// Key of the outcome record of a shard that failed.
pub fn error_object_key(base_prefix: &str, run_date: &str, run_id: &str, shard_id: usize) -> (key:
    String)
    ensures
        key@ == spec_outcome_object_key(
            spec_partition_prefix(base_prefix@, DatasetKind::ShardOutcomes, run_date@, run_id@, "failure"@),
            shard_id as nat,
        ),
{
    let prefix = partition_prefix(
        base_prefix,
        DatasetKind::ShardOutcomes,
        run_date,
        run_id,
        "failure",
    );
    outcome_object_key(prefix, shard_id)
}

/// Key of the run-context record of a run.
pub fn run_context_object_key(base_prefix: &str, run_date: &str, run_id: &str, status: &str) -> (key:
    String)
    ensures
        key@ == spec_partition_prefix(base_prefix@, DatasetKind::RunContext, run_date@, run_id@, status@)
            + "/part-0.parquet"@,
{
    let mut key = partition_prefix(base_prefix, DatasetKind::RunContext, run_date, run_id, status);
    push_str(&mut key, "/part-0.parquet");
    key
}

/// Key of the effective-parameters record of one parameter point:
/// `{prefix}/shard_id_partition={shard}/point_index_partition={point}/part-0.parquet`.
pub fn effective_parameters_object_key(
    base_prefix: &str,
    run_date: &str,
    run_id: &str,
    status: &str,
    shard_id: usize,
    point_index: usize,
) -> (key: String)
    ensures
        key@ == spec_partition_prefix(
            base_prefix@,
            DatasetKind::EffectiveParameters,
            run_date@,
            run_id@,
            status@,
        ) + "/shard_id_partition="@ + decimal(shard_id as nat) + "/point_index_partition="@
            + decimal(point_index as nat) + "/part-0.parquet"@,
{
    let mut key = partition_prefix(
        base_prefix,
        DatasetKind::EffectiveParameters,
        run_date,
        run_id,
        status,
    );
    push_str(&mut key, "/shard_id_partition=");
    push_decimal(&mut key, shard_id as u64);
    push_str(&mut key, "/point_index_partition=");
    push_decimal(&mut key, point_index as u64);
    push_str(&mut key, "/part-0.parquet");
    key
}

} // verus!

verus! {

proof fn lemma_differ_at(a: Seq<char>, b: Seq<char>, i: int)
    requires
        0 <= i < a.len(),
        i < b.len(),
        a[i] != b[i],
    ensures
        a != b,
{
}

/// A failed shard's outcome never lands on an object that a successful attempt of the
/// same shard writes: its key differs from the success outcome key and from every metrics
/// key of the shard's points.
pub proof fn law_failure_key_differs_from_success_keys(
    base_prefix: Seq<char>,
    run_date: Seq<char>,
    run_id: Seq<char>,
    shard_id: nat,
    point_index: nat,
)
    ensures
        spec_outcome_object_key(
            spec_partition_prefix(base_prefix, DatasetKind::ShardOutcomes, run_date, run_id, "failure"@),
            shard_id,
        ) != spec_outcome_object_key(
            spec_partition_prefix(base_prefix, DatasetKind::ShardOutcomes, run_date, run_id, "success"@),
            shard_id,
        ),
        spec_outcome_object_key(
            spec_partition_prefix(base_prefix, DatasetKind::ShardOutcomes, run_date, run_id, "failure"@),
            shard_id,
        ) != spec_point_object_key(
            spec_partition_prefix(base_prefix, DatasetKind::ShardMetrics, run_date, run_id, "success"@),
            shard_id,
            point_index,
        ),
{
    reveal_strlit("/dataset=");
    reveal_strlit("shard_outcomes");
    reveal_strlit("shard_metrics");
    reveal_strlit("/run_date=");
    reveal_strlit("/");
    reveal_strlit("run_id_partition");
    reveal_strlit("=");
    reveal_strlit("status_partition");
    reveal_strlit("failure");
    reveal_strlit("success");
    let t = trimmed(base_prefix, TrimSet::Slash);
    let failure = spec_outcome_object_key(
        spec_partition_prefix(base_prefix, DatasetKind::ShardOutcomes, run_date, run_id, "failure"@),
        shard_id,
    );
    let success = spec_outcome_object_key(
        spec_partition_prefix(base_prefix, DatasetKind::ShardOutcomes, run_date, run_id, "success"@),
        shard_id,
    );
    let metrics = spec_point_object_key(
        spec_partition_prefix(base_prefix, DatasetKind::ShardMetrics, run_date, run_id, "success"@),
        shard_id,
        point_index,
    );
    let head = t + "/dataset="@;
    assert(failure.len() > head.len() + 6int);
    assert(metrics.len() > head.len() + 6int);
    assert(failure[head.len() + 6int] == 'o');
    assert(metrics[head.len() + 6int] == 'm');
    lemma_differ_at(failure, metrics, head.len() + 6int);
    let pre = t + "/dataset="@ + "shard_outcomes"@ + "/run_date="@ + run_date + "/"@
        + "run_id_partition"@ + "="@ + run_id + "/"@ + "status_partition"@ + "="@;
    assert(failure.len() > pre.len());
    assert(success.len() > pre.len());
    assert(failure[pre.len() as int] == 'f');
    assert(success[pre.len() as int] == 's');
    lemma_differ_at(failure, success, pre.len() as int);
}

} // verus!
