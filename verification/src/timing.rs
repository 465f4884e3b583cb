use vstd::prelude::*;

verus! {

broadcast use vstd::seq_lib::group_to_multiset_ensures;

/// The sum of a sequence of durations.
pub open spec fn seq_sum(s: Seq<u64>) -> int
    decreases s.len(),
{
    if s.len() == 0 {
        0
    } else {
        seq_sum(s.drop_last()) + s.last()
    }
}

/// Non-decreasing.
pub open spec fn sorted_u64(s: Seq<u64>) -> bool {
    forall|i: int, j: int| 0 <= i <= j < s.len() ==> s[i] <= s[j]
}

/// The rank (counted from 1) of the nearest-rank percentile `p` among `n` values: the
/// smallest rank that has at least `p` percent of the values at or below it, and 1 for
/// `p == 0`.
pub open spec fn nearest_rank(p: nat, n: nat) -> nat {
    if p == 0 {
        1
    } else {
        ((p * n + 99) / 100) as nat
    }
}

/// The nearest-rank percentile `p` of sorted values: the value of rank
/// `ceil(p * n / 100)` (the first value for `p == 0`), or none when there are no values or
/// `p` is above 100.
pub open spec fn percentile_of(sorted: Seq<u64>, p: nat) -> Option<u64> {
    if sorted.len() == 0 || p > 100 {
        None
    } else {
        Some(sorted[nearest_rank(p, sorted.len()) - 1])
    }
}

/// The minimum, mean (rounded down), maximum and the sorted list of a set of
/// durations in milliseconds; all zero and empty when there are none.
#[derive(Debug, PartialEq, Eq)]
pub struct TimingDistribution {
    min: u64,
    mean: u64,
    max: u64,
    sorted: Vec<u64>,
}

impl TimingDistribution {
    #[verifier::type_invariant]
    spec fn well_formed(&self) -> bool {
        &&& sorted_u64(self.sorted@)
        &&& self.sorted@.len() <= usize::MAX / 100
        &&& if self.sorted@.len() == 0 {
            self.min == 0 && self.mean == 0 && self.max == 0
        } else {
            &&& self.min == self.sorted@[0]
            &&& self.max == self.sorted@.last()
            &&& self.mean == seq_sum(self.sorted@) / (self.sorted@.len() as int)
        }
    }

    pub closed spec fn spec_sorted(&self) -> Seq<u64> {
        self.sorted@
    }

    pub closed spec fn spec_min(&self) -> u64 {
        self.min
    }

    pub closed spec fn spec_mean(&self) -> u64 {
        self.mean
    }

    pub closed spec fn spec_max(&self) -> u64 {
        self.max
    }

    pub fn min(&self) -> (v: u64)
        ensures
            v == self.spec_min(),
    {
        self.min
    }

    pub fn mean(&self) -> (v: u64)
        ensures
            v == self.spec_mean(),
    {
        self.mean
    }

    pub fn max(&self) -> (v: u64)
        ensures
            v == self.spec_max(),
    {
        self.max
    }

    pub fn sorted(&self) -> (v: &Vec<u64>)
        ensures
            v@ == self.spec_sorted(),
    {
        &self.sorted
    }

    /// The nearest-rank percentile `p` (0 to 100), or none if there are no values or `p`
    /// is above 100.
    pub fn percentile(&self, p: u8) -> (v: Option<u64>)
        ensures
            v == percentile_of(self.spec_sorted(), p as nat),
    {
        proof {
            use_type_invariant(self);
        }
        if self.sorted.len() == 0 || p > 100 {
            return None;
        }
        let n = self.sorted.len();
        if p == 0 {
            return Some(self.sorted[0]);
        }
        proof {
            assert((p as usize) * n <= 100 * n) by (nonlinear_arith)
                requires
                    p <= 100,
            ;
            assert((p as usize) * n >= 1) by (nonlinear_arith)
                requires
                    p >= 1,
                    n >= 1,
            ;
        }
        let scaled = (p as usize) * n;
        let rank = if scaled % 100 == 0 {
            scaled / 100
        } else {
            scaled / 100 + 1
        };
        proof {
            assert(rank == (scaled + 99) / 100);
            assert(1 <= rank <= n);
        }
        let idx = rank - 1;
        Some(self.sorted[idx])
    }
}

proof fn lemma_sum_push(s: Seq<u64>, x: u64)
    ensures
        seq_sum(s.push(x)) == seq_sum(s) + x,
{
    assert(s.push(x).drop_last() =~= s);
}

proof fn lemma_sum_nonneg(s: Seq<u64>)
    ensures
        seq_sum(s) >= 0,
    decreases s.len(),
{
    if s.len() > 0 {
        lemma_sum_nonneg(s.drop_last());
    }
}

proof fn lemma_sum_insert(s: Seq<u64>, i: int, x: u64)
    requires
        0 <= i <= s.len(),
    ensures
        seq_sum(s.insert(i, x)) == seq_sum(s) + x,
    decreases s.len(),
{
    if i == s.len() {
        assert(s.insert(i, x) =~= s.push(x));
        lemma_sum_push(s, x);
    } else {
        lemma_sum_insert(s.drop_last(), i, x);
        assert(s.insert(i, x).drop_last() =~= s.drop_last().insert(i, x));
        assert(s.insert(i, x).last() == s.last());
    }
}

proof fn lemma_sum_bounds(s: Seq<u64>)
    requires
        s.len() > 0,
        sorted_u64(s),
    ensures
        s[0] * s.len() <= seq_sum(s) <= s.last() * s.len(),
    decreases s.len(),
{
    if s.len() > 1 {
        let d = s.drop_last();
        assert(sorted_u64(d));
        lemma_sum_bounds(d);
        assert(seq_sum(s) == seq_sum(d) + s.last());
        assert(d[0] == s[0]);
        assert(d.last() <= s.last());
        assert(s[0] <= s.last());
        assert(s[0] * s.len() == s[0] * d.len() + s[0]) by (nonlinear_arith)
            requires
                s.len() == d.len() + 1,
        ;
        assert(s.last() * s.len() == s.last() * d.len() + s.last()) by (nonlinear_arith)
            requires
                s.len() == d.len() + 1,
        ;
        assert(d.last() * d.len() <= s.last() * d.len()) by (nonlinear_arith)
            requires
                d.last() <= s.last(),
        ;
    } else {
        assert(s.drop_last() =~= Seq::<u64>::empty());
        assert(seq_sum(s.drop_last()) == 0);
        assert(seq_sum(s) == seq_sum(s.drop_last()) + s.last());
        assert(s[0] == s.last());
    }
}

/// The distribution of some durations: their minimum, mean and maximum and the sorted
/// values (for percentiles).
pub fn timing_distribution(values: Vec<u64>) -> (d: TimingDistribution)
    requires
        seq_sum(values@) <= u64::MAX,
        values@.len() <= usize::MAX / 100,
    ensures
        sorted_u64(d.spec_sorted()),
        d.spec_sorted().to_multiset() == values@.to_multiset(),
        values@.len() == 0 ==> d.spec_min() == 0 && d.spec_mean() == 0 && d.spec_max() == 0,
        values@.len() > 0 ==> {
            &&& d.spec_min() == d.spec_sorted()[0]
            &&& d.spec_max() == d.spec_sorted().last()
            &&& d.spec_mean() == seq_sum(values@) / (values@.len() as int)
            &&& forall|i: int| 0 <= i < values@.len() ==> d.spec_min() <= #[trigger] values@[i] <= d.spec_max()
        },
{
    if values.len() == 0 {
        return TimingDistribution { min: 0, mean: 0, max: 0, sorted: values };
    }
    let mut sorted: Vec<u64> = Vec::new();
    let mut total: u64 = 0;
    let mut i: usize = 0;
    while i < values.len()
        invariant
            i <= values@.len(),
            seq_sum(values@) <= u64::MAX,
            sorted_u64(sorted@),
            sorted@.to_multiset() == values@.take(i as int).to_multiset(),
            total == seq_sum(values@.take(i as int)),
            seq_sum(sorted@) == total,
            sorted@.len() == i,
        decreases values@.len() - i,
    {
        let x = values[i];
        proof {
            assert(values@.take(i + 1) =~= values@.take(i as int).push(x));
            lemma_sum_push(values@.take(i as int), x);
            lemma_sum_prefix_le(values@, i + 1);
        }
        total = total + x;
        let mut p: usize = 0;
        while p < sorted.len() && sorted[p] <= x
            invariant
                p <= sorted@.len(),
                forall|k: int| 0 <= k < p ==> sorted@[k] <= x,
            decreases sorted@.len() - p,
        {
            p = p + 1;
        }
        let ghost before = sorted@;
        sorted.insert(p, x);
        proof {
            vstd::seq_lib::to_multiset_insert(before, p as int, x);
            vstd::seq_lib::to_multiset_build(values@.take(i as int), x);
            lemma_sum_insert(before, p as int, x);
            assert forall|a: int, b: int| 0 <= a <= b < sorted@.len() implies sorted@[a] <= sorted@[b] by {
                if a < p && b == p {
                } else if a < p && b > p {
                    assert(sorted@[b] == before[b - 1]);
                } else if a == p && b > p {
                    assert(sorted@[b] == before[b - 1]);
                    assert(before[p as int] > x);
                } else if a > p {
                    assert(sorted@[a] == before[a - 1]);
                    assert(sorted@[b] == before[b - 1]);
                }
            }
        }
        i = i + 1;
    }
    proof {
        assert(values@.take(values@.len() as int) =~= values@);
        lemma_sum_bounds(sorted@);
        assert forall|k: int| 0 <= k < values@.len() implies sorted@[0] <= #[trigger] values@[k] <= sorted@.last() by {
            assert(values@.to_multiset().contains(values@[k]));
            assert(sorted@.to_multiset().contains(values@[k]));
            assert(sorted@.contains(values@[k]));
        }
    }
    let n = sorted.len();
    let min = sorted[0];
    let max = sorted[n - 1];
    let mean = total / (n as u64);
    proof {
        assert(min * n <= total <= max * n);
        assert(min <= mean <= max) by (nonlinear_arith)
            requires
                min * n <= total <= max * n,
                n >= 1,
                mean == (total as int) / (n as int),
        ;
    }
    TimingDistribution { min, mean, max, sorted }
}

proof fn lemma_sum_prefix_le(s: Seq<u64>, k: int)
    requires
        0 <= k <= s.len(),
    ensures
        seq_sum(s.take(k)) <= seq_sum(s),
    decreases s.len() - k,
{
    if k < s.len() {
        lemma_sum_prefix_le(s, k + 1);
        assert(s.take(k + 1) =~= s.take(k).push(s[k]));
        lemma_sum_push(s.take(k), s[k]);
    } else {
        assert(s.take(k) =~= s);
    }
}

} // verus!
