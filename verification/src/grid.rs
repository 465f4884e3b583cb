use vstd::prelude::*;
use crate::scenario::MatchingAlgorithmType;
use crate::text::{owned, push_decimal};

verus! {

/// The number of combinations of axes with `r[i]` values each.
pub open spec fn axes_product(r: Seq<nat>) -> nat
    decreases r.len(),
{
    if r.len() == 0 {
        1
    } else {
        r[0] * axes_product(r.drop_first())
    }
}

/// The value index of each axis in combination `k`, the first axis varying fastest.
pub open spec fn grid_digits(r: Seq<nat>, k: nat) -> Seq<nat>
    decreases r.len(),
{
    if r.len() == 0 {
        Seq::empty()
    } else {
        seq![k % r[0]] + grid_digits(r.drop_first(), k / r[0])
    }
}

pub open spec fn nats(v: Seq<usize>) -> Seq<nat> {
    v.map_values(|x: usize| x as nat)
}

proof fn lemma_product_push(r: Seq<nat>, x: nat)
    ensures
        axes_product(r.push(x)) == axes_product(r) * x,
    decreases r.len(),
{
    let full = r.push(x);
    if r.len() == 0 {
        assert(full.drop_first() =~= Seq::<nat>::empty());
        assert(full[0] == x);
        assert(axes_product(Seq::<nat>::empty()) == 1);
        assert(axes_product(full) == x * 1);
        assert(axes_product(r) == 1);
        assert(x * 1 == 1 * x) by (nonlinear_arith);
    } else {
        assert(full.drop_first() =~= r.drop_first().push(x));
        assert(full[0] == r[0]);
        lemma_product_push(r.drop_first(), x);
        let p = axes_product(r.drop_first());
        assert(axes_product(full) == r[0] * (p * x));
        assert(axes_product(r) == r[0] * p);
        assert(r[0] * (p * x) == (r[0] * p) * x) by (nonlinear_arith);
    }
}

proof fn lemma_digits_push(r: Seq<nat>, x: nat, v: nat, i: nat)
    requires
        v < x,
        i < axes_product(r),
    ensures
        grid_digits(r.push(x), v * axes_product(r) + i) == grid_digits(r, i).push(v),
    decreases r.len(),
{
    let k = v * axes_product(r) + i;
    if r.len() == 0 {
        assert(r.push(x).drop_first() =~= Seq::<nat>::empty());
        assert(i == 0);
        assert(k == v) by (nonlinear_arith)
            requires
                k == v * 1 + i,
                i == 0,
        ;
        assert(v % x == v) by (nonlinear_arith)
            requires
                v < x,
        ;
        let full = r.push(x);
        assert(full[0] == x);
        assert(full.drop_first() =~= Seq::<nat>::empty());
        assert(grid_digits(full, k) == seq![k % x] + grid_digits(full.drop_first(), k / x));
        assert(grid_digits(full, k) =~= seq![v]);
        assert(grid_digits(r, i).push(v) =~= seq![v]);
    } else {
        let r0 = r[0];
        let rest = r.drop_first();
        let p = axes_product(rest);
        assert(r.push(x).drop_first() =~= rest.push(x));
        assert(r.push(x)[0] == r0);
        assert(r0 > 0) by (nonlinear_arith)
            requires
                i < r0 * p,
        ;
        let q = i / r0;
        let rr = i % r0;
        vstd::arithmetic::div_mod::lemma_fundamental_div_mod(i as int, r0 as int);
        assert(k == (v * p + q) * r0 + rr) by (nonlinear_arith)
            requires
                k == v * (r0 * p) + i,
                i == r0 * q + rr,
        ;
        vstd::arithmetic::div_mod::lemma_fundamental_div_mod_converse(
            k as int,
            r0 as int,
            (v * p + q) as int,
            rr as int,
        );
        assert(i / r0 < p) by (nonlinear_arith)
            requires
                i < r0 * p,
                r0 > 0,
        ;
        lemma_digits_push(rest, x, v, i / r0);
        assert(grid_digits(r.push(x), k) =~= seq![i % r0] + grid_digits(rest.push(x), k / r0));
        assert(grid_digits(r, i) =~= seq![i % r0] + grid_digits(rest, i / r0));
        assert(seq![i % r0] + grid_digits(rest, i / r0).push(v) =~= (seq![i % r0] + grid_digits(
            rest,
            i / r0,
        )).push(v));
    }
}

/// The position of the combination with value indices `d`, the first axis varying
/// fastest.
pub open spec fn grid_position(r: Seq<nat>, d: Seq<nat>) -> nat
    decreases d.len(),
{
    if d.len() == 0 || r.len() == 0 {
        0
    } else {
        d[0] + r[0] * grid_position(r.drop_first(), d.drop_first())
    }
}

/// A grid holds every combination: each choice of one value index per axis is found at
/// a position below the number of combinations.
pub proof fn law_grid_covers_every_combination(r: Seq<nat>, d: Seq<nat>)
    requires
        d.len() == r.len(),
        forall|i: int| 0 <= i < r.len() ==> #[trigger] d[i] < r[i],
    ensures
        grid_position(r, d) < axes_product(r),
        grid_digits(r, grid_position(r, d)) == d,
    decreases r.len(),
{
    if r.len() > 0 {
        let rest = r.drop_first();
        let dr = d.drop_first();
        assert forall|i: int| 0 <= i < rest.len() implies #[trigger] dr[i] < rest[i] by {
            assert(dr[i] == d[i + 1] && rest[i] == r[i + 1]);
        }
        law_grid_covers_every_combination(rest, dr);
        let q = grid_position(rest, dr);
        let k = grid_position(r, d);
        let p = axes_product(rest);
        assert(d[0] < r[0]);
        assert(k < r[0] * p) by (nonlinear_arith)
            requires
                k == d[0] + r[0] * q,
                q < p,
                d[0] < r[0],
        ;
        assert(k == q * r[0] + d[0]) by (nonlinear_arith)
            requires
                k == d[0] + r[0] * q,
        ;
        vstd::arithmetic::div_mod::lemma_fundamental_div_mod_converse(
            k as int,
            r[0] as int,
            q as int,
            d[0] as int,
        );
        assert(grid_digits(r, k) =~= seq![d[0]] + grid_digits(rest, q));
        assert(d =~= seq![d[0]] + dr);
    }
}

/// A grid holds each combination once: two positions below the number of combinations
/// with the same value indices are the same position.
pub proof fn law_grid_lists_each_combination_once(r: Seq<nat>, k1: nat, k2: nat)
    requires
        k1 < axes_product(r),
        k2 < axes_product(r),
        grid_digits(r, k1) == grid_digits(r, k2),
    ensures
        k1 == k2,
    decreases r.len(),
{
    if r.len() > 0 {
        let r0 = r[0];
        let rest = r.drop_first();
        let p = axes_product(rest);
        assert(r0 > 0) by (nonlinear_arith)
            requires
                k1 < r0 * p,
        ;
        assert(grid_digits(r, k1)[0] == k1 % r0);
        assert(grid_digits(r, k2)[0] == k2 % r0);
        assert(grid_digits(r, k1).drop_first() =~= grid_digits(rest, k1 / r0));
        assert(grid_digits(r, k2).drop_first() =~= grid_digits(rest, k2 / r0));
        assert(k1 / r0 < p && k2 / r0 < p) by (nonlinear_arith)
            requires
                k1 < r0 * p,
                k2 < r0 * p,
                r0 > 0,
        ;
        law_grid_lists_each_combination_once(rest, k1 / r0, k2 / r0);
        vstd::arithmetic::div_mod::lemma_fundamental_div_mod(k1 as int, r0 as int);
        vstd::arithmetic::div_mod::lemma_fundamental_div_mod(k2 as int, r0 as int);
    }
}

/// Every combination of the axes' value indices, the first axis varying fastest: the
/// combination at position `k` is `grid_digits(radices, k)`.
pub fn grid_combinations(radices: &Vec<usize>) -> (combos: Vec<Vec<usize>>)
    requires
        forall|j: int| 0 <= j <= radices@.len() ==> #[trigger] axes_product(
            nats(radices@.take(j)),
        ) <= usize::MAX,
    ensures
        combos@.len() == axes_product(nats(radices@)),
        forall|k: int|
            0 <= k < combos@.len() ==> nats(#[trigger] combos@[k]@) == grid_digits(
                nats(radices@),
                k as nat,
            ),
{
    let mut partial: Vec<Vec<usize>> = Vec::new();
    partial.push(Vec::new());
    let ghost r = nats(radices@);
    proof {
        assert(radices@.take(0) =~= Seq::<usize>::empty());
        assert(nats(radices@.take(0)) =~= Seq::<nat>::empty());
        assert(nats(partial@[0]@) =~= grid_digits(Seq::<nat>::empty(), 0));
    }
    let mut j: usize = 0;
    while j < radices.len()
        invariant
            j <= radices@.len(),
            r == nats(radices@),
            forall|t: int| 0 <= t <= radices@.len() ==> #[trigger] axes_product(
                nats(radices@.take(t)),
            ) <= usize::MAX,
            partial@.len() == axes_product(nats(radices@.take(j as int))),
            forall|k: int|
                0 <= k < partial@.len() ==> nats(#[trigger] partial@[k]@) == grid_digits(
                    nats(radices@.take(j as int)),
                    k as nat,
                ),
        decreases radices@.len() - j,
    {
        let ghost prefix = nats(radices@.take(j as int));
        let ghost p = partial@.len();
        proof {
            assert(nats(radices@.take(j + 1)) =~= prefix.push(radices@[j as int] as nat));
            lemma_product_push(prefix, radices@[j as int] as nat);
        }
        let mut next: Vec<Vec<usize>> = Vec::new();
        let mut v: usize = 0;
        while v < radices[j]
            invariant
                j < radices@.len(),
                v <= radices@[j as int],
                p == partial@.len(),
                prefix == nats(radices@.take(j as int)),
                p == axes_product(prefix),
                axes_product(prefix.push(radices@[j as int] as nat)) <= usize::MAX,
                axes_product(prefix.push(radices@[j as int] as nat)) == p * radices@[j as int],
                next@.len() == v * p,
                forall|k: int|
                    0 <= k < partial@.len() ==> nats(#[trigger] partial@[k]@) == grid_digits(
                        prefix,
                        k as nat,
                    ),
                forall|k: int|
                    0 <= k < next@.len() ==> nats(#[trigger] next@[k]@) == grid_digits(
                        prefix.push(radices@[j as int] as nat),
                        k as nat,
                    ),
            decreases radices@[j as int] - v,
        {
            assert((v + 1) * p <= p * radices@[j as int]) by (nonlinear_arith)
                requires
                    v < radices@[j as int],
            ;
            let mut i: usize = 0;
            while i < partial.len()
                invariant
                    j < radices@.len(),
                    v < radices@[j as int],
                    i <= partial@.len(),
                    p == partial@.len(),
                    p == axes_product(prefix),
                    (v + 1) * p <= usize::MAX,
                    next@.len() == v * p + i,
                    forall|k: int|
                        0 <= k < partial@.len() ==> nats(#[trigger] partial@[k]@) == grid_digits(
                            prefix,
                            k as nat,
                        ),
                    forall|k: int|
                        0 <= k < next@.len() ==> nats(#[trigger] next@[k]@) == grid_digits(
                            prefix.push(radices@[j as int] as nat),
                            k as nat,
                        ),
                decreases partial@.len() - i,
            {
                let mut combo = copy_indices(&partial[i]);
                let ghost old_combo = combo@;
                combo.push(v);
                proof {
                    assert(v * p + i < (v + 1) * p) by (nonlinear_arith)
                        requires
                            i < p,
                    ;
                    lemma_digits_push(prefix, radices@[j as int] as nat, v as nat, i as nat);
                    assert(nats(combo@) =~= nats(old_combo).push(v as nat));
                }
                next.push(combo);
                i = i + 1;
            }
            proof {
                assert(v * p + p == (v + 1) * p) by (nonlinear_arith);
            }
            v = v + 1;
        }
        proof {
            let rj = radices@[j as int];
            assert(next@.len() == p * rj) by (nonlinear_arith)
                requires
                    next@.len() == v * p,
                    v == rj,
            ;
        }
        partial = next;
        j = j + 1;
    }
    proof {
        assert(radices@.take(radices@.len() as int) =~= radices@);
    }
    partial
}

fn copy_indices(v: &Vec<usize>) -> (r: Vec<usize>)
    ensures
        r@ == v@,
{
    let mut r: Vec<usize> = Vec::new();
    let mut i: usize = 0;
    while i < v.len()
        invariant
            i <= v@.len(),
            r@ == v@.take(i as int),
        decreases v@.len() - i,
    {
        r.push(v[i]);
        i = i + 1;
        assert(r@ =~= v@.take(i as int));
    }
    assert(v@.take(v@.len() as int) =~= v@);
    r
}

/// Hungarian matching runs only in batches: a combination that asks for it without
/// batch matching is discarded.
pub fn is_valid_matching_config(matching_algorithm_type: MatchingAlgorithmType, batch_matching_enabled: bool) -> (b: bool)
    ensures
        b == (matching_algorithm_type != MatchingAlgorithmType::Hungarian || batch_matching_enabled),
{
    match matching_algorithm_type {
        MatchingAlgorithmType::Hungarian => batch_matching_enabled,
        _ => true,
    }
}

/// Whether a matching setup (algorithm, batch matching on) is one a simulation may run.
pub open spec fn matching_ok(c: (MatchingAlgorithmType, bool)) -> bool {
    c.0 != MatchingAlgorithmType::Hungarian || c.1
}

/// The positions, among the first `n` grid combinations, of those whose matching setup
/// is valid, in grid order.
pub open spec fn valid_positions(matching: Seq<(MatchingAlgorithmType, bool)>, n: nat) -> Seq<int>
    decreases n,
{
    if n == 0 {
        Seq::empty()
    } else {
        let prev = valid_positions(matching, (n - 1) as nat);
        if matching_ok(matching[n - 1]) {
            prev.push(n - 1)
        } else {
            prev
        }
    }
}

proof fn lemma_valid_positions(matching: Seq<(MatchingAlgorithmType, bool)>, n: nat)
    requires
        n <= matching.len(),
    ensures
        forall|a: int, b: int|
            0 <= a < b < valid_positions(matching, n).len() ==> valid_positions(matching, n)[a]
                < valid_positions(matching, n)[b],
        forall|k: int|
            0 <= k < valid_positions(matching, n).len() ==> 0 <= #[trigger] valid_positions(
                matching,
                n,
            )[k] < n && matching_ok(matching[valid_positions(matching, n)[k]]),
        forall|p: int|
            0 <= p < n && #[trigger] matching_ok(matching[p]) ==> valid_positions(matching, n).contains(p),
    decreases n,
{
    if n > 0 {
        lemma_valid_positions(matching, (n - 1) as nat);
        let prev = valid_positions(matching, (n - 1) as nat);
        let cur = valid_positions(matching, n);
        assert forall|p: int| 0 <= p < n && #[trigger] matching_ok(matching[p]) implies cur.contains(p) by {
            if p < n - 1 {
                let j = choose|j: int| 0 <= j < prev.len() && prev[j] == p;
                assert(cur[j] == p);
            } else {
                assert(cur[cur.len() - 1] == p);
            }
        }
    }
}

/// A grid keeps exactly its combinations with a valid matching setup, in grid order and
/// each once; the `i`-th one kept is experiment `i`.
pub proof fn law_grid_keeps_exactly_valid_combinations(matching: Seq<(MatchingAlgorithmType, bool)>)
    ensures
        ({
            let kept = valid_positions(matching, matching.len());
            &&& forall|a: int, b: int| 0 <= a < b < kept.len() ==> kept[a] < kept[b]
            &&& forall|p: int|
                0 <= p < matching.len() ==> (kept.contains(p) <==> matching_ok(matching[p]))
        }),
{
    let kept = valid_positions(matching, matching.len());
    lemma_valid_positions(matching, matching.len());
    assert forall|p: int| 0 <= p < matching.len() implies (kept.contains(p) <==> matching_ok(
        matching[p],
    )) by {
        if kept.contains(p) {
            let j = choose|j: int| 0 <= j < kept.len() && kept[j] == p;
            assert(matching_ok(matching[kept[j]]));
        }
        if matching_ok(matching[p]) {
            assert(kept.contains(p));
        }
    }
}

/// Numbers the grid's experiments: given the matching setup of each combination in grid
/// order, the positions of the combinations kept, those with a valid setup, in order; the
/// `i`-th position listed is experiment `i`.
pub fn number_valid_combinations(matching: &Vec<(MatchingAlgorithmType, bool)>) -> (kept: Vec<usize>)
    ensures
        kept@.map_values(|i: usize| i as int) == valid_positions(matching@, matching@.len()),
{
    let mut kept: Vec<usize> = Vec::new();
    let mut i: usize = 0;
    proof {
        assert(kept@.map_values(|j: usize| j as int) =~= Seq::<int>::empty());
    }
    while i < matching.len()
        invariant
            i <= matching@.len(),
            kept@.map_values(|j: usize| j as int) == valid_positions(matching@, i as nat),
        decreases matching@.len() - i,
    {
        let (algorithm, batch) = matching[i];
        if is_valid_matching_config(algorithm, batch) {
            let ghost before = kept@;
            kept.push(i);
            proof {
                assert(kept@.map_values(|j: usize| j as int) =~= before.map_values(|j: usize| j as int).push(
                    i as int,
                ));
            }
        }
        i = i + 1;
    }
    kept
}

/// The seed of experiment `experiment_id` of a grid: its number times 0x9e3779b9,
/// wrapping.
pub fn experiment_seed(experiment_id: usize) -> (seed: u64)
    ensures
        seed == ((experiment_id as nat) * 0x9e3779b9nat) % 0x1_0000_0000_0000_0000nat,
{
    let id = experiment_id as u64;
    id.wrapping_mul(0x9e3779b9)
}

/// The name of experiment `experiment_id`: `exp_{experiment_id}`.
pub fn experiment_name(experiment_id: usize) -> (name: String)
    ensures
        name@ == "exp_"@ + crate::text::decimal(experiment_id as nat),
{
    let mut name = owned("exp_");
    push_decimal(&mut name, experiment_id as u64);
    name
}

/// When a simulation of `duration_hours` hours ends: that many hours after requests
/// stop, saturating.
pub fn duration_end_time_ms(request_window_ms: u64, duration_hours: u64) -> (end: u64)
    requires
        duration_hours * 3_600_000 <= u64::MAX,
    ensures
        end == if request_window_ms + duration_hours * 3_600_000 > u64::MAX {
            u64::MAX
        } else {
            (request_window_ms + duration_hours * 3_600_000) as u64
        },
{
    request_window_ms.saturating_add(duration_hours * 3_600_000)
}

} // verus!
