use vstd::prelude::*;
use crate::grid::is_valid_matching_config;
use crate::scenario::MatchingAlgorithmType;
use crate::text::{decimal, owned, push_decimal, str_eq};

verus! {

/// Whether each attempt's matching setup, its algorithm and whether batch matching is on,
/// is one a simulation may run: the Hungarian algorithm needs batch matching.
pub open spec fn matching_validity(matching: Seq<(MatchingAlgorithmType, bool)>) -> Seq<bool> {
    matching.map_values(
        |c: (MatchingAlgorithmType, bool)| c.0 != MatchingAlgorithmType::Hungarian || c.1,
    )
}

/// The chosen values of each draw, as texts.
pub open spec fn value_views(draws: Seq<Vec<String>>) -> Seq<Seq<Seq<char>>> {
    draws.map_values(|d: Vec<String>| d@.map_values(|v: String| v@))
}

/// The chosen values of the kept attempts, in the order they were kept.
pub open spec fn kept_values(draws: Seq<Seq<Seq<char>>>, kept: Seq<int>) -> Seq<Seq<Seq<char>>> {
    kept.map_values(|i: int| draws[i])
}

/// The attempts that random sampling keeps after `attempts` attempts: an attempt whose
/// draw is a valid configuration and whose chosen values were not kept before is kept,
/// and once `count` attempts are kept no further attempt changes anything.
pub open spec fn sampled(draws: Seq<Seq<Seq<char>>>, valid: Seq<bool>, count: nat, attempts: nat) -> Seq<int>
    decreases attempts,
{
    if attempts == 0 {
        Seq::empty()
    } else {
        let prev = sampled(draws, valid, count, (attempts - 1) as nat);
        let i = attempts - 1;
        if prev.len() < count && valid[i] && !kept_values(draws, prev).contains(draws[i]) {
            prev.push(i)
        } else {
            prev
        }
    }
}

/// How many attempts sampling makes at most: the attempt limit, and no more than there
/// are draws.
pub open spec fn attempt_limit(draw_count: nat, max_attempts: nat) -> nat {
    if max_attempts < draw_count {
        max_attempts
    } else {
        draw_count
    }
}

/// At most `count` attempts are kept.
proof fn lemma_sampled_len(draws: Seq<Seq<Seq<char>>>, valid: Seq<bool>, count: nat, attempts: nat)
    ensures
        sampled(draws, valid, count, attempts).len() <= count,
    decreases attempts,
{
    if attempts > 0 {
        lemma_sampled_len(draws, valid, count, (attempts - 1) as nat);
    }
}

/// Once `count` attempts are kept, later attempts keep nothing more.
proof fn lemma_sampled_full(draws: Seq<Seq<Seq<char>>>, valid: Seq<bool>, count: nat, a: nat, b: nat)
    requires
        a <= b,
        sampled(draws, valid, count, a).len() >= count,
    ensures
        sampled(draws, valid, count, b) == sampled(draws, valid, count, a),
    decreases b - a,
{
    if a < b {
        lemma_sampled_full(draws, valid, count, a, (b - 1) as nat);
    }
}

/// The kept attempts come in increasing order, each a valid attempt among those made,
/// and no two kept attempts chose the same values.
proof fn lemma_sampled_distinct_valid(
    draws: Seq<Seq<Seq<char>>>,
    valid: Seq<bool>,
    count: nat,
    attempts: nat,
)
    requires
        attempts <= draws.len(),
        attempts <= valid.len(),
    ensures
        kept_values(draws, sampled(draws, valid, count, attempts)).no_duplicates(),
        forall|a: int, b: int|
            0 <= a < b < sampled(draws, valid, count, attempts).len() ==> sampled(
                draws,
                valid,
                count,
                attempts,
            )[a] < sampled(draws, valid, count, attempts)[b],
        forall|k: int|
            0 <= k < sampled(draws, valid, count, attempts).len() ==> {
                let i = #[trigger] sampled(draws, valid, count, attempts)[k];
                0 <= i < attempts && valid[i]
            },
    decreases attempts,
{
    if attempts > 0 {
        let prev = sampled(draws, valid, count, (attempts - 1) as nat);
        lemma_sampled_distinct_valid(draws, valid, count, (attempts - 1) as nat);
        let cur = sampled(draws, valid, count, attempts);
        let i = attempts - 1;
        if prev.len() < count && valid[i] && !kept_values(draws, prev).contains(draws[i]) {
            assert(cur == prev.push(i));
            let kv = kept_values(draws, cur);
            let pv = kept_values(draws, prev);
            assert(kv =~= pv.push(draws[i]));
            assert forall|a: int, b: int| 0 <= a < b < kv.len() implies kv[a] != kv[b] by {
                if b == pv.len() {
                    assert(pv.contains(pv[a]));
                } else {
                    assert(kv[a] == pv[a] && kv[b] == pv[b]);
                }
            }
        } else {
            assert(cur == prev);
        }
    }
}

/// Random sampling keeps at most `count` attempts, in the order they were made, only
/// attempts whose matching setup is valid (no Hungarian matching without batch
/// matching), and no two whose chosen values are the same.
pub proof fn law_sampling_keeps_distinct_valid_draws(
    draws: Seq<Seq<Seq<char>>>,
    matching: Seq<(MatchingAlgorithmType, bool)>,
    count: nat,
    max_attempts: nat,
)
    requires
        matching.len() == draws.len(),
    ensures
        ({
            let limit = attempt_limit(draws.len(), max_attempts);
            let kept = sampled(draws, matching_validity(matching), count, limit);
            &&& kept.len() <= count
            &&& kept_values(draws, kept).no_duplicates()
            &&& forall|a: int, b: int| 0 <= a < b < kept.len() ==> kept[a] < kept[b]
            &&& forall|k: int|
                0 <= k < kept.len() ==> 0 <= #[trigger] kept[k] < limit && (matching[kept[k]].0
                    != MatchingAlgorithmType::Hungarian || matching[kept[k]].1)
        }),
{
    let limit = attempt_limit(draws.len(), max_attempts);
    let valid = matching_validity(matching);
    lemma_sampled_len(draws, valid, count, limit);
    lemma_sampled_distinct_valid(draws, valid, count, limit);
}

fn same_values(a: &Vec<String>, b: &Vec<String>) -> (r: bool)
    ensures
        r == (a@.map_values(|v: String| v@) == b@.map_values(|v: String| v@)),
{
    let ghost av = a@.map_values(|v: String| v@);
    let ghost bv = b@.map_values(|v: String| v@);
    if a.len() != b.len() {
        assert(av.len() != bv.len());
        return false;
    }
    let mut i: usize = 0;
    while i < a.len()
        invariant
            a@.len() == b@.len(),
            av == a@.map_values(|v: String| v@),
            bv == b@.map_values(|v: String| v@),
            i <= a@.len(),
            forall|k: int| 0 <= k < i ==> av[k] == bv[k],
        decreases a@.len() - i,
    {
        if !str_eq(a[i].as_str(), b[i].as_str()) {
            assert(av[i as int] != bv[i as int]);
            return false;
        }
        i = i + 1;
    }
    assert(av =~= bv);
    true
}

fn kept_contains(draws: &Vec<Vec<String>>, kept: &Vec<usize>, d: &Vec<String>) -> (r: bool)
    requires
        forall|k: int| 0 <= k < kept@.len() ==> kept@[k] < draws@.len(),
    ensures
        r == kept_values(value_views(draws@), kept@.map_values(|i: usize| i as int)).contains(
            d@.map_values(|v: String| v@),
        ),
{
    let ghost kv = kept_values(value_views(draws@), kept@.map_values(|i: usize| i as int));
    let ghost dv = d@.map_values(|v: String| v@);
    let mut k: usize = 0;
    while k < kept.len()
        invariant
            forall|j: int| 0 <= j < kept@.len() ==> kept@[j] < draws@.len(),
            kv == kept_values(value_views(draws@), kept@.map_values(|i: usize| i as int)),
            dv == d@.map_values(|v: String| v@),
            k <= kept@.len(),
            forall|j: int| 0 <= j < k ==> kv[j] != dv,
        decreases kept@.len() - k,
    {
        let i = kept[k];
        assert(kv[k as int] == value_views(draws@)[i as int]);
        if same_values(&draws[i], d) {
            assert(kv[k as int] == dv);
            return true;
        }
        k = k + 1;
    }
    false
}

/// Random sampling over drawn configurations. Attempt `i` offers `draws[i]`, the chosen
/// value of each swept parameter as text, with `matching[i]`, the matching algorithm and
/// batch-matching switch it runs with. Sampling keeps an attempt whose matching setup is
/// valid and whose chosen values were not kept before, and stops once `count` attempts
/// are kept or `max_attempts` attempts (or all the draws) are used. The answer lists the
/// kept attempts in order.
pub fn sample_points(
    draws: &Vec<Vec<String>>,
    matching: &Vec<(MatchingAlgorithmType, bool)>,
    count: usize,
    max_attempts: usize,
) -> (kept: Vec<usize>)
    requires
        matching@.len() == draws@.len(),
    ensures
        kept@.map_values(|i: usize| i as int) == sampled(
            value_views(draws@),
            matching_validity(matching@),
            count as nat,
            attempt_limit(draws@.len(), max_attempts as nat),
        ),
        kept@.len() <= count,
        forall|k: int|
            0 <= k < kept@.len() ==> {
                let c = matching@[#[trigger] kept@[k] as int];
                c.0 != MatchingAlgorithmType::Hungarian || c.1
            },
{
    let ghost valid = matching_validity(matching@);
    let ghost dv = value_views(draws@);
    let mut kept: Vec<usize> = Vec::new();
    let mut attempts: usize = 0;
    proof {
        assert(kept@.map_values(|i: usize| i as int) =~= Seq::<int>::empty());
    }
    while kept.len() < count && attempts < max_attempts && attempts < draws.len()
        invariant
            matching@.len() == draws@.len(),
            valid == matching_validity(matching@),
            dv == value_views(draws@),
            attempts <= attempt_limit(draws@.len(), max_attempts as nat),
            kept@.map_values(|i: usize| i as int) == sampled(dv, valid, count as nat, attempts as nat),
            forall|k: int| 0 <= k < kept@.len() ==> kept@[k] < attempts,
        decreases draws@.len() - attempts,
    {
        let i = attempts;
        let (algorithm, batch) = matching[i];
        let ok = is_valid_matching_config(algorithm, batch);
        proof {
            assert(ok == valid[i as int]);
            assert(dv[i as int] == draws@[i as int]@.map_values(|v: String| v@));
        }
        attempts = attempts + 1;
        if ok && !kept_contains(draws, &kept, &draws[i]) {
            let ghost before = kept@;
            kept.push(i);
            proof {
                assert(kept@.map_values(|j: usize| j as int) =~= before.map_values(|j: usize| j as int).push(
                    i as int,
                ));
            }
        }
    }
    proof {
        let limit = attempt_limit(draws@.len(), max_attempts as nat);
        if attempts < limit {
            lemma_sampled_full(dv, valid, count as nat, attempts as nat, limit);
        }
        lemma_sampled_len(dv, valid, count as nat, limit);
        lemma_sampled_distinct_valid(dv, valid, count as nat, limit);
        assert forall|k: int| 0 <= k < kept@.len() implies {
            let c = matching@[#[trigger] kept@[k] as int];
            c.0 != MatchingAlgorithmType::Hungarian || c.1
        } by {
            let sk = sampled(dv, valid, count as nat, limit);
            assert(kept@.map_values(|i: usize| i as int)[k] == kept@[k] as int);
            assert(sk[k] == kept@[k] as int);
            assert(valid[sk[k]]);
        }
    }
    kept
}

/// The seed of the `index`-th kept sample: `(seed + index) * 0x9e3779b9`, wrapping.
pub fn sample_seed(seed: u64, index: usize) -> (s: u64)
    ensures
        s == (((seed as nat + index as nat) % 0x1_0000_0000_0000_0000nat) * 0x9e3779b9nat)
            % 0x1_0000_0000_0000_0000nat,
{
    let i = index as u64;
    seed.wrapping_add(i).wrapping_mul(0x9e3779b9)
}

/// The name of the `index`-th kept sample: `random_{index}`.
pub fn sample_name(index: usize) -> (name: String)
    ensures
        name@ == "random_"@ + decimal(index as nat),
{
    let mut name = owned("random_");
    push_decimal(&mut name, index as u64);
    name
}

} // verus!
