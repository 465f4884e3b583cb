use vstd::prelude::*;
use crate::contract::{check_dimensions, ChildShardPayload, Dimensions, DimensionView};
use crate::scenario::{MatchingAlgorithmType, TrafficProfileMode};
use crate::text::{chars_of, owned, push_decimal, push_str, str_eq};

verus! {

/// A dimension that a sweep may vary: one per scenario parameter it can set.
#[derive(Debug, Clone, Copy, PartialEq, Eq)]
pub enum DimensionKind {
    NumRiders,
    NumDrivers,
    MatchRadius,
    CommissionRate,
    BaseFare,
    PerKmRate,
    SurgeEnabled,
    SurgeRadiusK,
    SurgeMaxMultiplier,
    EpochMs,
    SimulationDurationHours,
    MatchingAlgorithmType,
    BatchMatchingEnabled,
    BatchIntervalSecs,
    EtaWeight,
    TrafficProfile,
    DynamicCongestionEnabled,
    BaseSpeedKmh,
}

/// The dimension that `name` stands for, if a sweep may vary it.
pub open spec fn dimension_kind_of(name: Seq<char>) -> Option<DimensionKind> {
    if name == "num_riders"@ {
        Some(DimensionKind::NumRiders)
    } else if name == "num_drivers"@ {
        Some(DimensionKind::NumDrivers)
    } else if name == "match_radius"@ {
        Some(DimensionKind::MatchRadius)
    } else if name == "commission_rate"@ {
        Some(DimensionKind::CommissionRate)
    } else if name == "base_fare"@ {
        Some(DimensionKind::BaseFare)
    } else if name == "per_km_rate"@ {
        Some(DimensionKind::PerKmRate)
    } else if name == "surge_enabled"@ {
        Some(DimensionKind::SurgeEnabled)
    } else if name == "surge_radius_k"@ {
        Some(DimensionKind::SurgeRadiusK)
    } else if name == "surge_max_multiplier"@ {
        Some(DimensionKind::SurgeMaxMultiplier)
    } else if name == "epoch_ms"@ {
        Some(DimensionKind::EpochMs)
    } else if name == "simulation_duration_hours"@ {
        Some(DimensionKind::SimulationDurationHours)
    } else if name == "matching_algorithm_type"@ {
        Some(DimensionKind::MatchingAlgorithmType)
    } else if name == "batch_matching_enabled"@ {
        Some(DimensionKind::BatchMatchingEnabled)
    } else if name == "batch_interval_secs"@ {
        Some(DimensionKind::BatchIntervalSecs)
    } else if name == "eta_weight"@ {
        Some(DimensionKind::EtaWeight)
    } else if name == "traffic_profile"@ {
        Some(DimensionKind::TrafficProfile)
    } else if name == "dynamic_congestion_enabled"@ {
        Some(DimensionKind::DynamicCongestionEnabled)
    } else if name == "base_speed_kmh"@ {
        Some(DimensionKind::BaseSpeedKmh)
    } else {
        None
    }
}

/// The dimension that `name` stands for, if a sweep may vary it.
pub fn dimension_kind(name: &str) -> (k: Option<DimensionKind>)
    ensures
        k == dimension_kind_of(name@),
{
    if str_eq(name, "num_riders") {
        Some(DimensionKind::NumRiders)
    } else if str_eq(name, "num_drivers") {
        Some(DimensionKind::NumDrivers)
    } else if str_eq(name, "match_radius") {
        Some(DimensionKind::MatchRadius)
    } else if str_eq(name, "commission_rate") {
        Some(DimensionKind::CommissionRate)
    } else if str_eq(name, "base_fare") {
        Some(DimensionKind::BaseFare)
    } else if str_eq(name, "per_km_rate") {
        Some(DimensionKind::PerKmRate)
    } else if str_eq(name, "surge_enabled") {
        Some(DimensionKind::SurgeEnabled)
    } else if str_eq(name, "surge_radius_k") {
        Some(DimensionKind::SurgeRadiusK)
    } else if str_eq(name, "surge_max_multiplier") {
        Some(DimensionKind::SurgeMaxMultiplier)
    } else if str_eq(name, "epoch_ms") {
        Some(DimensionKind::EpochMs)
    } else if str_eq(name, "simulation_duration_hours") {
        Some(DimensionKind::SimulationDurationHours)
    } else if str_eq(name, "matching_algorithm_type") {
        Some(DimensionKind::MatchingAlgorithmType)
    } else if str_eq(name, "batch_matching_enabled") {
        Some(DimensionKind::BatchMatchingEnabled)
    } else if str_eq(name, "batch_interval_secs") {
        Some(DimensionKind::BatchIntervalSecs)
    } else if str_eq(name, "eta_weight") {
        Some(DimensionKind::EtaWeight)
    } else if str_eq(name, "traffic_profile") {
        Some(DimensionKind::TrafficProfile)
    } else if str_eq(name, "dynamic_congestion_enabled") {
        Some(DimensionKind::DynamicCongestionEnabled)
    } else if str_eq(name, "base_speed_kmh") {
        Some(DimensionKind::BaseSpeedKmh)
    } else {
        None
    }
}

/// Every dimension is one that a sweep may vary.
pub open spec fn all_dimensions_supported(dims: Seq<DimensionView>) -> bool {
    forall|i: int| 0 <= i < dims.len() ==> (#[trigger] dimension_kind_of(dims[i].0)) is Some
}

/// The number of values of each dimension, in name order.
pub open spec fn radices(dims: Seq<DimensionView>) -> Seq<nat> {
    dims.map_values(|d: DimensionView| d.1.len())
}

/// The number of parameter points: the product of the radices.
pub open spec fn radix_product(r: Seq<nat>) -> nat
    decreases r.len(),
{
    if r.len() == 0 {
        1
    } else {
        radix_product(r.drop_last()) * r.last()
    }
}

/// The point index that value indices `digits` stand for, the last dimension varying
/// fastest.
pub open spec fn compose_index(r: Seq<nat>, digits: Seq<nat>) -> nat
    decreases digits.len(),
{
    if digits.len() == 0 || r.len() == 0 {
        0
    } else {
        compose_index(r.drop_last(), digits.drop_last()) * r.last() + digits.last()
    }
}

/// The value index of each dimension at point `index`, read as a mixed-radix number
/// whose last dimension varies fastest; or the message of the first problem met
/// walking the dimensions from the last: an empty dimension, a dimension that no
/// scenario parameter answers to, or an index at or past the number of points.
pub open spec fn point_digits(dims: Seq<DimensionView>, index: nat) -> Result<Seq<nat>, Seq<char>>
    decreases dims.len(),
{
    if dims.len() == 0 {
        if index == 0 {
            Ok(Seq::empty())
        } else {
            Err("Index exceeds dimension product"@)
        }
    } else {
        let r = dims.last().1.len();
        if r == 0 {
            Err("Dimension '"@ + dims.last().0 + "' cannot be empty"@)
        } else if dimension_kind_of(dims.last().0) is None {
            Err("Unsupported dimension '"@ + dims.last().0 + "'"@)
        } else {
            match point_digits(dims.drop_last(), index / r) {
                Ok(ds) => Ok(ds.push(index % r)),
                Err(e) => Err(e),
            }
        }
    }
}

/// The value index of each dimension (in name order) at parameter point `index`.
pub fn point_value_indices(dims: &Dimensions, index: usize) -> (res: Result<Vec<usize>, String>)
    ensures
        match res {
            Ok(v) => point_digits(dims@, index as nat) == Ok::<Seq<nat>, Seq<char>>(
                v@.map_values(|x: usize| x as nat),
            ),
            Err(e) => point_digits(dims@, index as nat) == Err::<Seq<nat>, Seq<char>>(e@),
        },
{
    let n = dims.len();
    let mut digits: Vec<usize> = Vec::new();
    let mut remainder = index;
    let mut k = n;
    let ghost d = dims@;
    proof {
        assert(d.take(n as int) =~= d);
        assert(digits@.reverse().map_values(|x: usize| x as nat) =~= Seq::<nat>::empty());
        match point_digits(d, index as nat) {
            Ok(ds) => {
                assert(ds + Seq::<nat>::empty() =~= ds);
            },
            Err(e) => {},
        }
    }
    while k > 0
        invariant
            k <= n == d.len(),
            d == dims@,
            digits@.len() == n - k,
            point_digits(d, index as nat) == match point_digits(d.take(k as int), remainder as nat) {
                Ok(ds) => Ok(ds + digits@.reverse().map_values(|x: usize| x as nat)),
                Err(e) => Err::<Seq<nat>, Seq<char>>(e),
            },
        decreases k,
    {
        let dim = dims.entry(k - 1);
        let radix = dim.values.len();
        let ghost t = d.take(k as int);
        assert(t.last() == d[k - 1]);
        assert(t.drop_last() =~= d.take(k - 1));
        if radix == 0 {
            let mut m = owned("Dimension '");
            push_str(&mut m, dim.name.as_str());
            push_str(&mut m, "' cannot be empty");
            return Err(m);
        }
        if dimension_kind(dim.name.as_str()).is_none() {
            let mut m = owned("Unsupported dimension '");
            push_str(&mut m, dim.name.as_str());
            push_str(&mut m, "'");
            return Err(m);
        }
        let value_idx = remainder % radix;
        let ghost old_digits = digits@;
        digits.push(value_idx);
        proof {
            assert(digits@.reverse() =~= seq![value_idx].add(old_digits.reverse()));
            let ghost f = |x: usize| x as nat;
            assert(digits@.reverse().map_values(f) =~= seq![value_idx as nat].add(
                old_digits.reverse().map_values(f),
            ));
            match point_digits(d.take(k - 1), (remainder / radix) as nat) {
                Ok(ds) => {
                    assert(ds.push((remainder % radix) as nat) + old_digits.reverse().map_values(f)
                        =~= ds + digits@.reverse().map_values(f));
                },
                Err(e) => {},
            }
        }
        remainder = remainder / radix;
        k = k - 1;
    }
    assert(d.take(0) =~= Seq::<DimensionView>::empty());
    if remainder != 0 {
        return Err(owned("Index exceeds dimension product"));
    }
    let mut out: Vec<usize> = Vec::new();
    let mut j = digits.len();
    while j > 0
        invariant
            j <= digits@.len(),
            out@ == digits@.reverse().take((digits@.len() - j) as int),
        decreases j,
    {
        out.push(digits[j - 1]);
        j = j - 1;
        assert(out@ =~= digits@.reverse().take((digits@.len() - j) as int));
    }
    assert(out@ =~= digits@.reverse());
    assert(Seq::<nat>::empty() + digits@.reverse().map_values(|x: usize| x as nat) =~= out@.map_values(
        |x: usize| x as nat,
    ));
    Ok(out)
}

proof fn lemma_product_prepend(x: nat, s: Seq<nat>)
    ensures
        radix_product(seq![x] + s) == x * radix_product(s),
    decreases s.len(),
{
    let full = seq![x] + s;
    if s.len() == 0 {
        assert(full.drop_last() =~= Seq::<nat>::empty());
        assert(full.last() == x);
        assert(radix_product(full) == radix_product(full.drop_last()) * full.last());
        assert(radix_product(Seq::<nat>::empty()) == 1);
        assert(radix_product(s) == 1);
        assert(1 * x == x) by (nonlinear_arith);
    } else {
        lemma_product_prepend(x, s.drop_last());
        assert(full.drop_last() =~= seq![x] + s.drop_last());
        assert(full.last() == s.last());
        let p = radix_product(s.drop_last());
        assert(radix_product(full) == radix_product(full.drop_last()) * full.last());
        assert(radix_product(s) == p * s.last());
        assert(x * p * s.last() == x * (p * s.last())) by (nonlinear_arith);
    }
}

/// The number of points that `check_dimensions` counts is the product of the
/// dimensions' sizes, the range that point indices decode from.
pub proof fn law_point_count_is_radix_product(dims: Seq<DimensionView>, total: nat)
    requires
        check_dimensions(dims, 0, 1) == Ok::<nat, Seq<char>>(total),
    ensures
        total == radix_product(radices(dims)),
        forall|i: int| 0 <= i < dims.len() ==> #[trigger] radices(dims)[i] > 0,
{
    lemma_check_product(dims, 0, 1, total);
    assert(radices(dims).subrange(0, dims.len() as int) =~= radices(dims));
}

proof fn lemma_check_product(dims: Seq<DimensionView>, i: nat, t: nat, total: nat)
    requires
        i <= dims.len(),
        check_dimensions(dims, i, t) == Ok::<nat, Seq<char>>(total),
    ensures
        total == t * radix_product(radices(dims).subrange(i as int, dims.len() as int)),
        forall|k: int| i <= k < dims.len() ==> #[trigger] radices(dims)[k] > 0,
    decreases dims.len() - i,
{
    let r = radices(dims);
    if i == dims.len() {
        assert(r.subrange(i as int, dims.len() as int) =~= Seq::<nat>::empty());
        assert(radix_product(Seq::<nat>::empty()) == 1);
        assert(t * 1 == t) by (nonlinear_arith);
    } else {
        let c = dims[i as int].1.len();
        assert(r[i as int] == c);
        lemma_check_product(dims, i + 1, t * c, total);
        assert(r.subrange(i as int, dims.len() as int) =~= seq![c] + r.subrange((i + 1) as int, dims.len() as int));
        lemma_product_prepend(c, r.subrange((i + 1) as int, dims.len() as int));
        let p = radix_product(r.subrange((i + 1) as int, dims.len() as int));
        assert(radix_product(r.subrange(i as int, dims.len() as int)) == c * p);
        assert(t * c * p == t * (c * p)) by (nonlinear_arith);
    }
}

/// Where every dimension is one a sweep may vary, every point index below the number
/// of points decodes to one value index per dimension, each within its dimension, and
/// the value indices compose back to the point index; so distinct points select
/// distinct parameter combinations.
pub proof fn law_point_decode_round_trip(dims: Seq<DimensionView>, index: nat)
    requires
        all_dimensions_supported(dims),
        forall|i: int| 0 <= i < dims.len() ==> #[trigger] radices(dims)[i] > 0,
        index < radix_product(radices(dims)),
    ensures
        point_digits(dims, index) is Ok,
        point_digits(dims, index)->Ok_0.len() == dims.len(),
        forall|i: int|
            0 <= i < dims.len() ==> #[trigger] point_digits(dims, index)->Ok_0[i] < radices(dims)[i],
        compose_index(radices(dims), point_digits(dims, index)->Ok_0) == index,
    decreases dims.len(),
{
    if dims.len() == 0 {
    } else {
        let d = dims.drop_last();
        let r = dims.last().1.len();
        assert(radices(dims)[dims.len() - 1] == r);
        assert(radices(d) =~= radices(dims).drop_last());
        assert forall|i: int| 0 <= i < d.len() implies #[trigger] radices(d)[i] > 0 by {
            assert(radices(d)[i] == radices(dims)[i]);
        }
        let p = radix_product(radices(d));
        assert(index / r < p) by (nonlinear_arith)
            requires
                index < p * r,
                r > 0,
        ;
        assert(dims.last() == dims[dims.len() - 1]);
        assert(all_dimensions_supported(d)) by {
            assert forall|i: int| 0 <= i < d.len() implies (#[trigger] dimension_kind_of(d[i].0)) is Some by {
                assert(d[i] == dims[i]);
            }
        }
        law_point_decode_round_trip(d, index / r);
        let ds = point_digits(d, index / r)->Ok_0;
        let full = ds.push(index % r);
        assert(full.drop_last() =~= ds);
        assert forall|i: int| 0 <= i < dims.len() implies #[trigger] full[i] < radices(dims)[i] by {
            if i < d.len() {
                assert(radices(d)[i] == radices(dims)[i]);
            }
        }
        assert((index / r) * r + index % r == index) by (nonlinear_arith)
            requires
                r > 0,
        ;
    }
}

/// Where every dimension is one a sweep may vary, a point index at or past the number
/// of points is refused.
pub proof fn law_point_decode_rejects_out_of_range(dims: Seq<DimensionView>, index: nat)
    requires
        all_dimensions_supported(dims),
        forall|i: int| 0 <= i < dims.len() ==> #[trigger] radices(dims)[i] > 0,
        index >= radix_product(radices(dims)),
    ensures
        point_digits(dims, index) == Err::<Seq<nat>, Seq<char>>("Index exceeds dimension product"@),
    decreases dims.len(),
{
    if dims.len() > 0 {
        let d = dims.drop_last();
        let r = dims.last().1.len();
        assert(radices(dims)[dims.len() - 1] == r);
        assert(radices(d) =~= radices(dims).drop_last());
        assert forall|i: int| 0 <= i < d.len() implies #[trigger] radices(d)[i] > 0 by {
            assert(radices(d)[i] == radices(dims)[i]);
        }
        let p = radix_product(radices(d));
        assert(index / r >= p) by (nonlinear_arith)
            requires
                index >= p * r,
                r > 0,
        ;
        assert(dims.last() == dims[dims.len() - 1]);
        assert(all_dimensions_supported(d)) by {
            assert forall|i: int| 0 <= i < d.len() implies (#[trigger] dimension_kind_of(d[i].0)) is Some by {
                assert(d[i] == dims[i]);
            }
        }
        law_point_decode_rejects_out_of_range(d, index / r);
    }
}

/// A selection names one value of each dimension: every dimension is one a sweep may
/// vary and lists values, each value index lies within its dimension, and the indices
/// compose back to the point index, the last dimension varying fastest.
pub proof fn law_point_selection_is_within_supported_dimensions(dims: Seq<DimensionView>, index: nat)
    ensures
        point_digits(dims, index) matches Ok(ds) ==> {
            &&& all_dimensions_supported(dims)
            &&& ds.len() == dims.len()
            &&& compose_index(radices(dims), ds) == index
            &&& forall|i: int| 0 <= i < dims.len() ==> #[trigger] ds[i] < radices(dims)[i]
        },
    decreases dims.len(),
{
    if dims.len() > 0 {
        if let Ok(ds) = point_digits(dims, index) {
            let d = dims.drop_last();
            let r = dims.last().1.len();
            assert(dims.last() == dims[dims.len() - 1]);
            law_point_selection_is_within_supported_dimensions(d, index / r);
            let prev = point_digits(d, index / r)->Ok_0;
            assert(ds == prev.push(index % r));
            assert(ds.drop_last() =~= prev);
            assert(radices(dims).drop_last() =~= radices(d));
            assert(radices(dims)[dims.len() - 1] == r);
            assert((index / r) * r + index % r == index) by (nonlinear_arith)
                requires
                    r > 0,
            ;
            assert forall|i: int| 0 <= i < dims.len() implies (#[trigger] dimension_kind_of(dims[i].0))
                is Some by {
                if i < d.len() {
                    assert(d[i] == dims[i]);
                }
            }
            assert forall|i: int| 0 <= i < dims.len() implies #[trigger] ds[i] < radices(dims)[i] by {
                if i < d.len() {
                    assert(radices(d)[i] == radices(dims)[i]);
                    assert(ds[i] == prev[i]);
                }
            }
        }
    }
}

/// A shard runs exactly when it is not one chosen for an injected failure and its range
/// ends within the points; an injected failure is reported first.
pub proof fn law_shard_runs_unless_injected_or_out_of_range(payload: ChildShardPayload)
    ensures
        execution_error(payload) is None <==> (!payload.failure_injection_shards@.contains(
            payload.shard_id,
        ) && payload.end_index_exclusive <= payload.total_points),
        payload.failure_injection_shards@.contains(payload.shard_id) ==> execution_error(payload)
            == Some("Injected shard failure for verification"@),
        !payload.failure_injection_shards@.contains(payload.shard_id)
            && payload.end_index_exclusive > payload.total_points ==> execution_error(payload) == Some(
            "end_index_exclusive exceeds total_points"@,
        ),
{
}

/// Why a child refuses to run its shard, if it does: the shard is one chosen for an
/// injected failure, or its range runs past the number of points.
pub open spec fn execution_error(payload: ChildShardPayload) -> Option<Seq<char>> {
    if payload.failure_injection_shards@.contains(payload.shard_id) {
        Some("Injected shard failure for verification"@)
    } else if payload.end_index_exclusive > payload.total_points {
        Some("end_index_exclusive exceeds total_points"@)
    } else {
        None
    }
}

/// The seed of one parameter point: the run's seed, as an unsigned number, with the
/// point index mixed in by exclusive or.
pub fn point_seed(seed: i64, index: usize) -> (s: u64)
    ensures
        s == (seed as u64) ^ (index as u64),
{
    (seed as u64) ^ (index as u64)
}

/// The name of a shard's parameter sets: `{run_id}-shard-{shard_id}`.
pub fn parameter_set_name(run_id: &str, shard_id: usize) -> (name: String)
    ensures
        name@ == run_id@ + "-shard-"@ + crate::text::decimal(shard_id as nat),
{
    let mut name = owned(run_id);
    push_str(&mut name, "-shard-");
    push_decimal(&mut name, shard_id as u64);
    name
}

/// The end of a simulation that names none: two hours after requests stop, saturating.
pub fn default_simulation_end_time_ms(request_window_ms: u64) -> (end: u64)
    ensures
        end == if request_window_ms + 7_200_000 > u64::MAX {
            u64::MAX
        } else {
            (request_window_ms + 7_200_000) as u64
        },
{
    request_window_ms.saturating_add(2 * 60 * 60 * 1000)
}

/// The name under which a matching algorithm appears in effective parameters.
pub fn matching_algorithm_type_name(value: MatchingAlgorithmType) -> (s: &'static str)
    ensures
        s@ == match value {
            MatchingAlgorithmType::Simple => "simple"@,
            MatchingAlgorithmType::CostBased => "cost_based"@,
            MatchingAlgorithmType::Hungarian => "hungarian"@,
        },
{
    match value {
        MatchingAlgorithmType::Simple => "simple",
        MatchingAlgorithmType::CostBased => "cost_based",
        MatchingAlgorithmType::Hungarian => "hungarian",
    }
}

/// What one parameter point of a shard runs with: the value index of each dimension
/// (in name order), its seed and the name of its parameter set.
pub struct PointSelection {
    pub value_indices: Vec<usize>,
    pub seed: u64,
    pub parameter_set_name: String,
}

/// Runs the points of a shard through the simulation, one parameter point after
/// another.
#[derive(Debug, Default, Clone, Copy)]
pub struct SimExperimentsShardExecutor;

impl SimExperimentsShardExecutor {
    /// The checks a shard passes before any of its points run.
    pub fn check_shard(&self, payload: &ChildShardPayload) -> (res: Result<(), String>)
        ensures
            match res {
                Ok(()) => execution_error(*payload) is None,
                Err(e) => execution_error(*payload) == Some(e@),
            },
    {
        let mut i: usize = 0;
        while i < payload.failure_injection_shards.len()
            invariant
                i <= payload.failure_injection_shards@.len(),
                forall|k: int| 0 <= k < i ==> payload.failure_injection_shards@[k] != payload.shard_id,
            decreases payload.failure_injection_shards@.len() - i,
        {
            if payload.failure_injection_shards[i] == payload.shard_id {
                assert(payload.failure_injection_shards@.contains(payload.shard_id));
                return Err(owned("Injected shard failure for verification"));
            }
            i = i + 1;
        }
        if payload.end_index_exclusive > payload.total_points {
            return Err(owned("end_index_exclusive exceeds total_points"));
        }
        Ok(())
    }

    /// The value indices, seed and parameter-set name of point `index` of the shard.
    pub fn select_point(&self, payload: &ChildShardPayload, index: usize) -> (res: Result<
        PointSelection,
        String,
    >)
        ensures
            match res {
                Ok(sel) => {
                    &&& point_digits(payload.dimensions@, index as nat) == Ok::<Seq<nat>, Seq<char>>(
                        sel.value_indices@.map_values(|x: usize| x as nat),
                    )
                    &&& sel.seed == (payload.seed as u64) ^ (index as u64)
                    &&& sel.parameter_set_name@ == payload.run_id@ + "-shard-"@
                        + crate::text::decimal(payload.shard_id as nat)
                },
                Err(e) => point_digits(payload.dimensions@, index as nat) == Err::<Seq<nat>, Seq<char>>(
                    e@,
                ),
            },
    {
        let value_indices = point_value_indices(&payload.dimensions, index)?;
        Ok(PointSelection {
            value_indices,
            seed: point_seed(payload.seed, index),
            parameter_set_name: parameter_set_name(payload.run_id.as_str(), payload.shard_id),
        })
    }
}

/// A dimension value, read as an unsigned integer, as a `u32`; too large a value is
/// refused.
pub fn dimension_u32(name: &str, value: u64) -> (res: Result<u32, String>)
    ensures
        match res {
            Ok(v) => value <= u32::MAX && v == value,
            Err(e) => value > u32::MAX && e@ == "Dimension '"@ + name@ + "' is too large"@,
        },
{
    if value <= 0xffff_ffffu64 {
        Ok(value as u32)
    } else {
        let mut m = owned("Dimension '");
        push_str(&mut m, name);
        push_str(&mut m, "' is too large");
        Err(m)
    }
}

/// A dimension value, read as an unsigned integer, as a `usize`; too large a value is
/// refused.
pub fn dimension_usize(name: &str, value: u64) -> (res: Result<usize, String>)
    ensures
        match res {
            Ok(v) => value <= usize::MAX && v == value,
            Err(e) => value > usize::MAX && e@ == "Dimension '"@ + name@ + "' is too large"@,
        },
{
    if value <= usize::MAX as u64 {
        Ok(value as usize)
    } else {
        let mut m = owned("Dimension '");
        push_str(&mut m, name);
        push_str(&mut m, "' is too large");
        Err(m)
    }
}

/// The end of a simulation that lasts `hours` hours, in milliseconds, saturating.
pub fn simulation_duration_ms(hours: u64) -> (ms: u64)
    ensures
        ms == if hours * 3_600_000 > u64::MAX {
            u64::MAX
        } else {
            (hours * 3_600_000) as u64
        },
{
    let limit: u64 = u64::MAX / 3_600_000;
    if hours > limit {
        assert(hours * 3_600_000 > u64::MAX) by (nonlinear_arith)
            requires
                hours > limit,
                limit == u64::MAX / 3_600_000,
        ;
        u64::MAX
    } else {
        assert(hours * 3_600_000 <= u64::MAX) by (nonlinear_arith)
            requires
                hours <= limit,
                limit == u64::MAX / 3_600_000,
        ;
        hours * 3_600_000
    }
}

/// The code of `c` with an ASCII capital made small.
pub open spec fn ascii_lower_code(c: char) -> int {
    if 'A' <= c <= 'Z' {
        c as int + 32
    } else {
        c as int
    }
}

/// Whether `raw`, with ASCII capitals made small, reads `word`.
pub open spec fn lowercases_to(raw: Seq<char>, word: Seq<char>) -> bool {
    &&& raw.len() == word.len()
    &&& forall|k: int| 0 <= k < raw.len() ==> ascii_lower_code(#[trigger] raw[k]) == word[k] as int
}

fn code(c: char) -> (r: u32)
    ensures
        r == c as int,
{
    c as u32
}

fn lower_code(c: char) -> (r: u32)
    ensures
        r == ascii_lower_code(c),
{
    let u = c as u32;
    if 'A' <= c && c <= 'Z' {
        u + 32
    } else {
        u
    }
}

/// Whether `s`, with ASCII capitals made small, reads `word`.
fn lower_equals(s: &Vec<char>, word: &str) -> (b: bool)
    ensures
        b == lowercases_to(s@, word@),
{
    let w = chars_of(word);
    if s.len() != w.len() {
        return false;
    }
    let mut i: usize = 0;
    while i < s.len()
        invariant
            s@.len() == w@.len(),
            w@ == word@,
            i <= s@.len(),
            forall|k: int| 0 <= k < i ==> ascii_lower_code(#[trigger] s@[k]) == w@[k] as int,
        decreases s@.len() - i,
    {
        let wc = w[i];
        if lower_code(s[i]) != code(wc) {
            return false;
        }
        i = i + 1;
    }
    true
}

/// The matching algorithm that a dimension value names, ignoring ASCII case, if any.
pub open spec fn matching_algorithm_named(raw: Seq<char>) -> Option<MatchingAlgorithmType> {
    if lowercases_to(raw, "simple"@) {
        Some(MatchingAlgorithmType::Simple)
    } else if lowercases_to(raw, "costbased"@) || lowercases_to(raw, "cost_based"@)
        || lowercases_to(raw, "cost-based"@) {
        Some(MatchingAlgorithmType::CostBased)
    } else if lowercases_to(raw, "hungarian"@) {
        Some(MatchingAlgorithmType::Hungarian)
    } else {
        None
    }
}

/// The matching algorithm a dimension value names, ignoring ASCII case.
pub fn parse_matching_algorithm(raw: &str) -> (res: Result<MatchingAlgorithmType, String>)
    ensures
        match res {
            Ok(m) => matching_algorithm_named(raw@) == Some(m),
            Err(e) => {
                &&& matching_algorithm_named(raw@) is None
                &&& e@ == "Unsupported matching_algorithm_type '"@ + raw@
                    + "' (expected simple, cost_based, or hungarian)"@
            },
        },
{
    let s = chars_of(raw);
    if lower_equals(&s, "simple") {
        Ok(MatchingAlgorithmType::Simple)
    } else if lower_equals(&s, "costbased") || lower_equals(&s, "cost_based") || lower_equals(
        &s,
        "cost-based",
    ) {
        Ok(MatchingAlgorithmType::CostBased)
    } else if lower_equals(&s, "hungarian") {
        Ok(MatchingAlgorithmType::Hungarian)
    } else {
        let mut m = owned("Unsupported matching_algorithm_type '");
        push_str(&mut m, raw);
        push_str(&mut m, "' (expected simple, cost_based, or hungarian)");
        Err(m)
    }
}

/// The traffic profile that a dimension value names, ignoring ASCII case, if any.
pub open spec fn traffic_profile_named(raw: Seq<char>) -> Option<TrafficProfileMode> {
    if lowercases_to(raw, "none"@) {
        Some(TrafficProfileMode::NoProfile)
    } else if lowercases_to(raw, "berlin"@) {
        Some(TrafficProfileMode::Berlin)
    } else {
        None
    }
}

/// The traffic profile a dimension value names, ignoring ASCII case.
pub fn parse_traffic_profile(raw: &str) -> (res: Result<TrafficProfileMode, String>)
    ensures
        match res {
            Ok(t) => traffic_profile_named(raw@) == Some(t),
            Err(e) => {
                &&& traffic_profile_named(raw@) is None
                &&& e@ == "Unsupported traffic_profile '"@ + raw@ + "' (expected none or berlin)"@
            },
        },
{
    let s = chars_of(raw);
    if lower_equals(&s, "none") {
        Ok(TrafficProfileMode::NoProfile)
    } else if lower_equals(&s, "berlin") {
        Ok(TrafficProfileMode::Berlin)
    } else {
        let mut m = owned("Unsupported traffic_profile '");
        push_str(&mut m, raw);
        push_str(&mut m, "' (expected none or berlin)");
        Err(m)
    }
}

} // verus!
