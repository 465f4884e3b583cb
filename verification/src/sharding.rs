use vstd::prelude::*;
use crate::contract::{NormalizedSweepRequest, ShardAssignment, ValidationError};
use crate::text::{decimal, owned, push_decimal, push_str};

verus! {

/// How many shards a request asks for: `shard_count` capped at the number of points, or
/// else the number of points divided by `shard_size`, rounded up.
pub open spec fn planned_shard_count(total: nat, count: Option<usize>, size: Option<usize>) -> Option<
    nat,
> {
    match (count, size) {
        (Some(c), _) => Some(if c <= total { c as nat } else { total }),
        (None, Some(s)) => Some(((total + s - 1) / (s as int)) as nat),
        (None, None) => None,
    }
}

/// First point of shard `i` when `total` points go to `count` shards: the first
/// `total % count` shards hold one point more than the others.
pub open spec fn shard_start(total: nat, count: nat, i: nat) -> nat {
    i * (total / count) + if i < total % count {
        i
    } else {
        total % count
    }
}

/// One past the last point of shard `i`.
pub open spec fn shard_end(total: nat, count: nat, i: nat) -> nat {
    shard_start(total, count, i) + total / count + if i < total % count {
        1nat
    } else {
        0nat
    }
}

/// Shard `i` of the plan of `total` points in `count` shards.
pub open spec fn planned_shard(total: nat, count: nat, i: nat) -> ShardAssignment {
    ShardAssignment {
        shard_id: i as usize,
        start_index: shard_start(total, count, i) as usize,
        end_index_exclusive: shard_end(total, count, i) as usize,
    }
}

pub open spec fn msg_too_many_shards(count: nat, max_shards: nat) -> Seq<char> {
    "Computed shard count "@ + decimal(count) + " exceeds max_shards="@ + decimal(max_shards)
}

/// Why a request cannot be planned, if it cannot.
pub open spec fn plan_error(total: nat, count: Option<usize>, size: Option<usize>, max_shards: nat) -> Option<
    Seq<char>,
> {
    match planned_shard_count(total, count, size) {
        None => Some("Either shard_count or shard_size is required"@),
        Some(n) => if n == 0 {
            Some("No shards to process"@)
        } else if n > max_shards {
            Some(msg_too_many_shards(n, max_shards))
        } else {
            None
        },
    }
}

/// Consecutive shards that start at 0, end at `total` and leave neither gap nor overlap.
pub open spec fn covers_contiguously(total: nat, plan: Seq<ShardAssignment>) -> bool {
    &&& plan.len() > 0
    &&& plan[0].start_index == 0
    &&& plan.last().end_index_exclusive == total
    &&& forall|i: int| 1 <= i < plan.len() ==> plan[i - 1].end_index_exclusive == #[trigger] plan[i].start_index
}

proof fn lemma_start_step(total: nat, count: nat, i: nat)
    requires
        count > 0,
    ensures
        shard_start(total, count, i + 1) == shard_end(total, count, i),
{
    let b = total / count;
    assert((i + 1) * b == i * b + b) by (nonlinear_arith);
}

proof fn lemma_start_at_count(total: nat, count: nat)
    requires
        count > 0,
    ensures
        shard_start(total, count, count) == total,
{
    assert(count * (total / count) + total % count == total) by (nonlinear_arith)
        requires
            count > 0,
    ;
}

proof fn lemma_start_monotone(total: nat, count: nat, i: nat, j: nat)
    requires
        count > 0,
        i <= j,
    ensures
        shard_start(total, count, i) <= shard_start(total, count, j),
    decreases j - i,
{
    if i < j {
        lemma_start_monotone(total, count, i, (j - 1) as nat);
        lemma_start_step(total, count, (j - 1) as nat);
    }
}

/// The shards of a plan cover the points `0..total` in order, without gap or overlap:
/// the first starts at 0, each starts where the one before ends, and the last ends at
/// `total`.
pub proof fn law_plan_partitions_points(total: nat, count: nat)
    requires
        count > 0,
    ensures
        shard_start(total, count, 0) == 0,
        shard_end(total, count, (count - 1) as nat) == total,
        forall|i: nat| i + 1 < count ==> #[trigger] shard_end(total, count, i) == shard_start(total, count, i + 1),
        forall|i: nat| i < count ==> #[trigger] shard_end(total, count, i) <= total,
{
    lemma_start_step(total, count, (count - 1) as nat);
    lemma_start_at_count(total, count);
    assert forall|i: nat| i + 1 < count implies #[trigger] shard_end(total, count, i) == shard_start(
        total,
        count,
        i + 1,
    ) by {
        lemma_start_step(total, count, i);
    }
    assert forall|i: nat| i < count implies #[trigger] shard_end(total, count, i) <= total by {
        lemma_start_step(total, count, i);
        lemma_start_monotone(total, count, i + 1, count);
    }
}

/// The plan is balanced: every shard holds `total / count` or `total / count + 1` points,
/// the larger shards come first, and no shard is empty when there are at least as many
/// points as shards.
pub proof fn law_plan_is_balanced(total: nat, count: nat)
    requires
        count > 0,
    ensures
        forall|i: nat|
            i < count ==> total / count <= #[trigger] shard_end(total, count, i) - shard_start(
                total,
                count,
                i,
            ) <= total / count + 1,
        count <= total ==> forall|i: nat|
            i < count ==> #[trigger] shard_end(total, count, i) - shard_start(total, count, i) >= 1,
        forall|i: nat, j: nat|
            i < j < count ==> #[trigger] shard_end(total, count, j) - shard_start(total, count, j)
                <= #[trigger] shard_end(total, count, i) - shard_start(total, count, i),
{
    if count <= total {
        assert(total / count >= 1) by (nonlinear_arith)
            requires
                count <= total,
                count > 0,
        ;
    }
}

/// Every point `p < total` lies in exactly one shard of the plan.
pub proof fn law_each_point_in_one_shard(total: nat, count: nat, p: nat)
    requires
        count > 0,
        p < total,
    ensures
        exists|i: nat|
            i < count && shard_start(total, count, i) <= p < #[trigger] shard_end(total, count, i),
        forall|i: nat, j: nat|
            i < count && j < count && shard_start(total, count, i) <= p < #[trigger] shard_end(total, count, i)
                && shard_start(total, count, j) <= p < #[trigger] shard_end(total, count, j) ==> i == j,
{
    law_plan_partitions_points(total, count);
    lemma_point_found(total, count, p, 0);
    assert forall|i: nat, j: nat|
        i < count && j < count && shard_start(total, count, i) <= p < #[trigger] shard_end(total, count, i)
            && shard_start(total, count, j) <= p < #[trigger] shard_end(total, count, j) implies i == j by {
        if i < j {
            lemma_start_step(total, count, i);
            lemma_start_monotone(total, count, i + 1, j);
        } else if j < i {
            lemma_start_step(total, count, j);
            lemma_start_monotone(total, count, j + 1, i);
        }
    }
}

proof fn lemma_point_found(total: nat, count: nat, p: nat, k: nat)
    requires
        count > 0,
        p < total,
        k < count,
        shard_start(total, count, k) <= p,
    ensures
        exists|i: nat|
            i < count && shard_start(total, count, i) <= p < #[trigger] shard_end(total, count, i),
    decreases count - k,
{
    lemma_start_step(total, count, k);
    if p < shard_end(total, count, k) {
    } else if k + 1 < count {
        lemma_point_found(total, count, p, k + 1);
    } else {
        law_plan_partitions_points(total, count);
    }
}

proof fn lemma_planned_shards_cover(total: nat, count: nat, plan: Seq<ShardAssignment>)
    requires
        count > 0,
        plan.len() == count,
        forall|i: int| 0 <= i < count ==> #[trigger] plan[i] == planned_shard(total, count, i as nat),
        forall|i: nat| i < count ==> #[trigger] shard_end(total, count, i) <= total,
        total <= usize::MAX,
    ensures
        covers_contiguously(total, plan),
{
    law_plan_partitions_points(total, count);
    assert forall|i: int| 1 <= i < plan.len() implies plan[i - 1].end_index_exclusive
        == #[trigger] plan[i].start_index by {
        assert(plan[i - 1] == planned_shard(total, count, (i - 1) as nat));
        assert(plan[i] == planned_shard(total, count, i as nat));
        lemma_start_step(total, count, (i - 1) as nat);
        assert(shard_end(total, count, (i - 1) as nat) <= total);
    }
    assert(plan[0] == planned_shard(total, count, 0));
    assert(plan.last() == planned_shard(total, count, (count - 1) as nat));
}

/// Checks that shards cover `0..total_points` in order without gap or overlap.
pub fn validate_assignments(total_points: usize, assignments: &[ShardAssignment]) -> (res: Result<
    (),
    ValidationError,
>)
    ensures
        res is Ok <==> covers_contiguously(total_points as nat, assignments@),
        res matches Err(e) ==> e@ == (if assignments@.len() == 0 {
            "No shards to process"@
        } else if assignments@[0].start_index != 0 || assignments@.last().end_index_exclusive
            != total_points {
            "Shard boundaries do not cover full parameter space"@
        } else {
            "Shard boundaries overlap or leave gaps"@
        }),
{
    if assignments.len() == 0 {
        return Err(ValidationError::new(owned("No shards to process")));
    }
    if assignments[0].start_index != 0 || assignments[assignments.len() - 1].end_index_exclusive
        != total_points {
        return Err(ValidationError::new(owned("Shard boundaries do not cover full parameter space")));
    }
    let mut idx: usize = 1;
    while idx < assignments.len()
        invariant
            1 <= idx <= assignments@.len(),
            assignments@[0].start_index == 0,
            assignments@.last().end_index_exclusive == total_points,
            forall|i: int|
                1 <= i < idx ==> assignments@[i - 1].end_index_exclusive
                    == #[trigger] assignments@[i].start_index,
        decreases assignments@.len() - idx,
    {
        if assignments[idx - 1].end_index_exclusive != assignments[idx].start_index {
            return Err(ValidationError::new(owned("Shard boundaries overlap or leave gaps")));
        }
        idx = idx + 1;
    }
    Ok(())
}

/// The number of shards a request asks for, if it says.
fn requested_shard_count(total_points: usize, count: Option<usize>, size: Option<usize>) -> (r:
    Option<usize>)
    requires
        count is None && size is Some ==> size->0 > 0,
    ensures
        match r {
            Some(n) => planned_shard_count(total_points as nat, count, size) == Some(n as nat),
            None => planned_shard_count(total_points as nat, count, size) is None,
        },
{
    match (count, size) {
        (Some(c), _) => if c <= total_points {
            Some(c)
        } else {
            Some(total_points)
        },
        (None, Some(size)) => {
            let q = total_points / size;
            proof {
                assert((total_points + size - 1) / (size as int) == total_points / size + if total_points
                    % size != 0 {
                    1int
                } else {
                    0int
                }) by (nonlinear_arith)
                    requires
                        size > 0,
                ;
                assert(total_points % size != 0 ==> total_points / size < total_points) by (
                nonlinear_arith)
                    requires
                        size > 0,
                ;
            }
            if total_points % size != 0 {
                Some(q + 1)
            } else {
                Some(q)
            }
        },
        (None, None) => None,
    }
}

/// Splits the points of a normalized request into contiguous shards of near-equal size.
pub fn compute_shard_plan(request: &NormalizedSweepRequest) -> (res: Result<
    Vec<ShardAssignment>,
    ValidationError,
>)
    requires
        request.shard_count is None && request.shard_size is Some ==> request.shard_size->0 > 0,
    ensures
        match res {
            Ok(plan) => {
                let count = planned_shard_count(
                    request.total_points as nat,
                    request.shard_count,
                    request.shard_size,
                )->0;
                &&& plan_error(
                    request.total_points as nat,
                    request.shard_count,
                    request.shard_size,
                    request.max_shards as nat,
                ) is None
                &&& plan@.len() == count
                &&& forall|i: int|
                    0 <= i < count ==> #[trigger] plan@[i] == planned_shard(
                        request.total_points as nat,
                        count,
                        i as nat,
                    )
                &&& covers_contiguously(request.total_points as nat, plan@)
            },
            Err(e) => plan_error(
                request.total_points as nat,
                request.shard_count,
                request.shard_size,
                request.max_shards as nat,
            ) == Some(e@),
        },
{
    let total_points = request.total_points;
    let shard_count = match requested_shard_count(
        total_points,
        request.shard_count,
        request.shard_size,
    ) {
        Some(count) => count,
        None => {
            return Err(ValidationError::new(owned("Either shard_count or shard_size is required")));
        },
    };
    if shard_count == 0 {
        return Err(ValidationError::new(owned("No shards to process")));
    }
    if shard_count > request.max_shards {
        let mut m = owned("Computed shard count ");
        push_decimal(&mut m, shard_count as u64);
        push_str(&mut m, " exceeds max_shards=");
        push_decimal(&mut m, request.max_shards as u64);
        return Err(ValidationError::new(m));
    }
    let ghost total = total_points as nat;
    let ghost count = shard_count as nat;
    proof {
        law_plan_partitions_points(total, count);
    }
    let base_size = total_points / shard_count;
    let remainder = total_points % shard_count;
    proof {
        assert(remainder > 0 ==> base_size < total_points) by (nonlinear_arith)
            requires
                shard_count > 0,
                base_size == total_points / shard_count,
                remainder == total_points % shard_count,
        ;
    }
    let mut assignments: Vec<ShardAssignment> = Vec::with_capacity(shard_count);
    let mut cursor: usize = 0;
    let mut shard_id: usize = 0;
    while shard_id < shard_count
        invariant
            shard_count > 0,
            total == total_points,
            count == shard_count,
            base_size == total / count,
            remainder == total % count,
            remainder > 0 ==> base_size < total_points,
            shard_id <= shard_count,
            cursor == shard_start(total, count, shard_id as nat),
            assignments@.len() == shard_id,
            forall|i: int|
                0 <= i < shard_id ==> #[trigger] assignments@[i] == planned_shard(total, count, i as nat),
            forall|i: nat| i < count ==> #[trigger] shard_end(total, count, i) <= total,
        decreases shard_count - shard_id,
    {
        let current_size = if shard_id < remainder {
            base_size + 1
        } else {
            base_size
        };
        proof {
            assert(shard_end(total, count, shard_id as nat) <= total);
            lemma_start_step(total, count, shard_id as nat);
        }
        let start_index = cursor;
        let end_index_exclusive = cursor + current_size;
        assignments.push(ShardAssignment { shard_id, start_index, end_index_exclusive });
        cursor = end_index_exclusive;
        shard_id = shard_id + 1;
    }
    proof {
        lemma_planned_shards_cover(total, count, assignments@);
    }
    match validate_assignments(total_points, assignments.as_slice()) {
        Ok(()) => Ok(assignments),
        Err(e) => Err(e),
    }
}

} // verus!
