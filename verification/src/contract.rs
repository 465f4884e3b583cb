use vstd::prelude::*;
use sha2::Digest;
use crate::text::{
    chars_lt, chars_of, compare_chars, is_blank, lemma_chars_lt_asymmetric,
    lemma_chars_lt_irreflexive, lemma_chars_lt_total, lemma_chars_lt_transitive, push_decimal,
    push_str, trim_set, trim_ws, decimal, TrimSet,
};

verus! {

pub const ORCHESTRATION_SCHEMA_VERSION: &'static str = "v1";

pub const OUTCOME_RECORD_SCHEMA_VERSION: &'static str = "v1";

pub const EFFECTIVE_PARAMETER_RECORD_SCHEMA_VERSION: &'static str = "v1";

pub const MAX_DIMENSION_VALUES: usize = 10_000;

pub const MAX_TOTAL_PARAMETER_POINTS: usize = 200_000;

pub const DEFAULT_MAX_SHARDS: usize = 1_000;

/// Default upper bound on the number of shards a sweep may be split into.
pub fn default_max_shards() -> (r: usize)
    ensures
        r == DEFAULT_MAX_SHARDS,
{
    DEFAULT_MAX_SHARDS
}

/// A copy of a list of strings.
pub fn clone_strings(v: &Vec<String>) -> (r: Vec<String>)
    ensures
        r.deep_view() == v.deep_view(),
{
    let mut r: Vec<String> = Vec::new();
    let mut i: usize = 0;
    while i < v.len()
        invariant
            i <= v.len(),
            r@.len() == i,
            forall|k: int| 0 <= k < i ==> #[trigger] r@[k]@ == v@[k]@,
        decreases v.len() - i,
    {
        r.push(v[i].clone());
        i = i + 1;
    }
    assert(r.deep_view() =~= v.deep_view());
    r
}

/// One swept parameter: its name and the JSON text of each of its values.
#[derive(Debug, Clone, PartialEq)]
pub struct Dimension {
    pub name: String,
    pub values: Vec<String>,
}

/// A dimension as a value: its name and the texts of its values.
pub type DimensionView = (Seq<char>, Seq<Seq<char>>);

impl View for Dimension {
    type V = DimensionView;

    open spec fn view(&self) -> DimensionView {
        (self.name@, self.values.deep_view())
    }
}

/// Names strictly increasing in `chars_lt`: sorted, and no name twice.
pub open spec fn names_strictly_sorted(entries: Seq<DimensionView>) -> bool {
    forall|i: int, j: int|
        0 <= i < j < entries.len() ==> chars_lt(#[trigger] entries[i].0, #[trigger] entries[j].0)
}

/// `entries` with `entry` put in the place of its name: replacing the dimension of the
/// same name, or inserted before the first name that sorts after it.
pub open spec fn insert_sorted(entries: Seq<DimensionView>, entry: DimensionView) -> Seq<
    DimensionView,
>
    decreases entries.len(),
{
    if entries.len() == 0 {
        seq![entry]
    } else if entries[0].0 == entry.0 {
        seq![entry] + entries.drop_first()
    } else if chars_lt(entry.0, entries[0].0) {
        seq![entry] + entries
    } else {
        seq![entries[0]] + insert_sorted(entries.drop_first(), entry)
    }
}

/// The swept parameters of a sweep, kept sorted by name with each name once
/// (a map from names to value lists).
#[derive(Debug, PartialEq)]
pub struct Dimensions {
    entries: Vec<Dimension>,
}

impl View for Dimensions {
    type V = Seq<DimensionView>;

    closed spec fn view(&self) -> Seq<DimensionView> {
        self.entries@.map_values(|d: Dimension| d@)
    }
}

proof fn lemma_insert_sorted_skip(entries: Seq<DimensionView>, entry: DimensionView, p: int)
    requires
        0 <= p <= entries.len(),
        forall|k: int| 0 <= k < p ==> #[trigger] chars_lt(entries[k].0, entry.0),
    ensures
        insert_sorted(entries, entry) == entries.take(p) + insert_sorted(entries.skip(p), entry),
    decreases p,
{
    if p > 0 {
        let rest = entries.drop_first();
        assert forall|k: int| 0 <= k < p - 1 implies #[trigger] chars_lt(rest[k].0, entry.0) by {
            assert(rest[k] == entries[k + 1]);
        }
        lemma_insert_sorted_skip(rest, entry, p - 1);
        lemma_chars_lt_irreflexive(entry.0);
        lemma_chars_lt_asymmetric(entries[0].0, entry.0);
        assert(entries[0].0 != entry.0);
        assert(rest.skip(p - 1) =~= entries.skip(p));
        assert(entries.take(p) =~= seq![entries[0]] + rest.take(p - 1));
    } else {
        assert(entries.take(0) =~= Seq::<DimensionView>::empty());
        assert(entries.skip(0) =~= entries);
    }
}

impl Dimensions {
    #[verifier::type_invariant]
    spec fn sorted(&self) -> bool {
        names_strictly_sorted(self@)
    }

    /// No dimensions.
    pub fn new() -> (d: Dimensions)
        ensures
            d@ == Seq::<DimensionView>::empty(),
    {
        let d = Dimensions { entries: Vec::new() };
        assert(d@ =~= Seq::<DimensionView>::empty());
        d
    }

    /// The number of dimensions.
    pub fn len(&self) -> (n: usize)
        ensures
            n == self@.len(),
    {
        self.entries.len()
    }

    /// Whether there are no dimensions.
    pub fn is_empty(&self) -> (b: bool)
        ensures
            b == (self@.len() == 0),
    {
        self.entries.len() == 0
    }

    /// The `i`-th dimension in name order.
    pub fn entry(&self, i: usize) -> (d: &Dimension)
        requires
            i < self@.len(),
        ensures
            d@ == self@[i as int],
    {
        &self.entries[i]
    }

    /// A copy with the same dimensions.
    pub fn duplicate(&self) -> (r: Dimensions)
        ensures
            r@ == self@,
    {
        proof {
            use_type_invariant(self);
        }
        let mut entries: Vec<Dimension> = Vec::new();
        let mut i: usize = 0;
        while i < self.entries.len()
            invariant
                i <= self.entries@.len(),
                entries@.len() == i,
                forall|k: int| 0 <= k < i ==> #[trigger] entries@[k]@ == self.entries@[k]@,
            decreases self.entries@.len() - i,
        {
            let d = &self.entries[i];
            entries.push(Dimension { name: d.name.clone(), values: clone_strings(&d.values) });
            i = i + 1;
        }
        assert(entries@.map_values(|d: Dimension| d@) =~= self@);
        Dimensions { entries }
    }

    /// Sets the values of the dimension `name`, replacing its earlier values if it has any.
    pub fn insert(&mut self, name: String, values: Vec<String>)
        ensures
            final(self)@ == insert_sorted(old(self)@, (name@, values.deep_view())),
            names_strictly_sorted(final(self)@),
    {
        proof {
            use_type_invariant(&*self);
        }
        let ghost old_view = self@;
        let ghost entry: DimensionView = (name@, values.deep_view());
        let key = chars_of(name.as_str());
        let n = self.entries.len();
        let mut p: usize = 0;
        let mut found = false;
        while p < n
            invariant_except_break
                p <= n == self.entries@.len(),
                self@ == old_view,
                key@ == entry.0,
                !found,
                forall|k: int| 0 <= k < p ==> #[trigger] chars_lt(old_view[k].0, entry.0),
            invariant
                self@ == old_view,
                n == self.entries@.len(),
            ensures
                p <= n,
                forall|k: int| 0 <= k < p ==> #[trigger] chars_lt(old_view[k].0, entry.0),
                found ==> p < n && old_view[p as int].0 == entry.0,
                !found ==> p == n || chars_lt(entry.0, old_view[p as int].0),
            decreases n - p,
        {
            let other = chars_of(self.entries[p].name.as_str());
            assert(old_view[p as int].0 == self.entries@[p as int].name@);
            let c = compare_chars(&other, &key);
            if c == 0 {
                found = true;
                break;
            }
            if c > 0 {
                break;
            }
            p = p + 1;
        }
        proof {
            lemma_insert_sorted_skip(old_view, entry, p as int);
        }
        let mut entries = Vec::new();
        std::mem::swap(&mut entries, &mut self.entries);
        let ghost old_entries = entries@;
        let d = Dimension { name, values };
        if found {
            entries.set(p, d);
        } else {
            entries.insert(p, d);
        }
        proof {
            let v = entries@.map_values(|d: Dimension| d@);
            let s = old_view.skip(p as int);
            if found {
                assert(s[0].0 == entry.0);
                assert(insert_sorted(s, entry) == seq![entry] + s.drop_first());
                assert(v =~= old_view.take(p as int) + (seq![entry] + s.drop_first()));
            } else if p < n {
                assert(s[0].0 != entry.0) by {
                    lemma_chars_lt_irreflexive(entry.0);
                }
                assert(v =~= old_view.take(p as int) + (seq![entry] + s));
            } else {
                assert(s =~= Seq::<DimensionView>::empty());
                assert(v =~= old_view.take(p as int) + seq![entry]);
            }
            assert forall|i: int, j: int| 0 <= i < j < v.len() implies chars_lt(
                #[trigger] v[i].0,
                #[trigger] v[j].0,
            ) by {
                if i < p && j < p {
                } else if i < p && j == p {
                } else if i < p {
                    let jj = if found { j } else { j - 1 };
                    assert(v[j] == old_view[jj]);
                    assert(v[i] == old_view[i]);
                } else if i == p {
                    let jj = if found { j } else { j - 1 };
                    assert(v[j] == old_view[jj]);
                    if found {
                    } else {
                        if jj > p {
                            lemma_chars_lt_transitive(entry.0, old_view[p as int].0, old_view[jj].0);
                        }
                    }
                } else {
                    let ii = if found { i } else { i - 1 };
                    let jj = if found { j } else { j - 1 };
                    assert(v[i] == old_view[ii]);
                    assert(v[j] == old_view[jj]);
                }
            }
        }
        self.entries = entries;
    }
}

/// A request to sweep a parameter space, split into shards.
#[derive(Debug, PartialEq)]
pub struct SweepRequest {
    pub run_id: String,
    pub dimensions: Dimensions,
    pub shard_count: Option<usize>,
    pub shard_size: Option<usize>,
    pub max_shards: usize,
    pub seed: i64,
    pub failure_injection_shards: Vec<usize>,
}

/// A sweep request that passed validation.
#[derive(Debug, PartialEq)]
pub struct NormalizedSweepRequest {
    pub run_id: String,
    pub dimensions: Dimensions,
    pub total_points: usize,
    pub shard_count: Option<usize>,
    pub shard_size: Option<usize>,
    pub max_shards: usize,
    pub seed: i64,
    pub failure_injection_shards: Vec<usize>,
}

/// The work handed to one child: a contiguous range of parameter points.
#[derive(Debug, PartialEq)]
pub struct ChildShardPayload {
    pub run_id: String,
    pub run_date: Option<String>,
    pub dimensions: Dimensions,
    pub total_points: usize,
    pub shard_id: usize,
    pub start_index: usize,
    pub end_index_exclusive: usize,
    pub seed: i64,
    pub failure_injection_shards: Vec<usize>,
}

/// Identity of a sweep run.
#[derive(Debug, Clone, PartialEq, Eq)]
pub struct RunContext {
    pub run_id: String,
    pub schema_version: String,
    pub request_fingerprint: String,
}

/// One shard of a sweep: the points `start_index..end_index_exclusive`.
#[derive(Debug, Clone, Copy, PartialEq, Eq, Structural)]
pub struct ShardAssignment {
    pub shard_id: usize,
    pub start_index: usize,
    pub end_index_exclusive: usize,
}

/// The answer of one child dispatch.
#[derive(Debug, Clone, Copy, PartialEq, Eq, Structural)]
pub struct DispatchRecord {
    pub shard_id: usize,
    pub status_code: u16,
}

/// The answer to an accepted sweep request.
#[derive(Debug, Clone, PartialEq, Eq)]
pub struct ParentAcceptedResponse {
    pub run_id: String,
    pub total_points: usize,
    pub shards_dispatched: usize,
    pub dispatches: Vec<DispatchRecord>,
    pub status: String,
    pub schema_version: String,
}

/// Why a shard failed.
#[derive(Debug, Clone, PartialEq, Eq)]
pub struct OutcomeError {
    pub error_code: String,
    pub error_message: String,
}

/// Where the results of a successful shard were written.
#[derive(Debug, Clone, PartialEq, Eq)]
pub struct ShardOutputMetadata {
    pub result_key: String,
    pub points_processed: usize,
    pub format: String,
}

/// The outcome record of one shard.
#[derive(Debug, Clone, PartialEq, Eq)]
pub struct ShardOutcomeRecord {
    pub run_id: String,
    pub shard_id: usize,
    pub status: String,
    pub start_index: usize,
    pub end_index_exclusive: usize,
    pub event_time: String,
    pub record_schema: String,
    pub output_metadata: Option<ShardOutputMetadata>,
    pub error: Option<OutcomeError>,
}

/// The effective parameters of one parameter point.
#[derive(Debug, Clone, PartialEq, Eq)]
pub struct EffectiveParameterRecord {
    pub run_id: String,
    pub shard_id: usize,
    pub point_index: usize,
    pub status: String,
    pub record_schema: String,
    pub parameter_fingerprint: String,
    pub effective_parameters_json: String,
}

/// A request or plan that breaks the sweep's rules, with a message saying which.
#[derive(Debug, Clone, PartialEq, Eq)]
pub struct ValidationError {
    message: String,
}

impl View for ValidationError {
    type V = Seq<char>;

    closed spec fn view(&self) -> Seq<char> {
        self.message@
    }
}

impl ValidationError {
    pub fn new(message: String) -> (e: ValidationError)
        ensures
            e@ == message@,
    {
        ValidationError { message }
    }

    pub fn message(&self) -> (m: &str)
        ensures
            m@ == self@,
    {
        self.message.as_str()
    }
}

pub open spec fn msg_dimension_not_list(name: Seq<char>) -> Seq<char> {
    "Dimension '"@ + name + "' must be a non-empty list"@
}

pub open spec fn msg_dimension_too_long(name: Seq<char>) -> Seq<char> {
    "Dimension '"@ + name + "' exceeds MAX_DIMENSION_VALUES="@ + decimal(
        MAX_DIMENSION_VALUES as nat,
    )
}

pub open spec fn msg_space_too_large() -> Seq<char> {
    "Parameter space is too large for this deployment (>"@ + decimal(
        MAX_TOTAL_PARAMETER_POINTS as nat,
    ) + " points)"@
}

/// Walks the dimensions from the `i`-th on with the running product `total`: the
/// number of parameter points, or the message of the first rule a dimension breaks.
pub open spec fn check_dimensions(dims: Seq<DimensionView>, i: nat, total: nat) -> Result<
    nat,
    Seq<char>,
>
    decreases dims.len() - i,
{
    if i >= dims.len() {
        Ok(total)
    } else {
        let name = dims[i as int].0;
        let count = dims[i as int].1.len();
        if trim_ws(name).len() == 0 {
            Err("dimension names must be non-empty strings"@)
        } else if count == 0 {
            Err(msg_dimension_not_list(name))
        } else if count > MAX_DIMENSION_VALUES {
            Err(msg_dimension_too_long(name))
        } else if total * count > MAX_TOTAL_PARAMETER_POINTS {
            Err(msg_space_too_large())
        } else {
            check_dimensions(dims, i + 1, total * count)
        }
    }
}

/// The message of the first rule that `request` breaks, in the order the rules are checked.
pub open spec fn normalize_error(request: SweepRequest) -> Option<Seq<char>> {
    if trim_ws(request.run_id@).len() == 0 {
        Some("run_id cannot be empty"@)
    } else if request.dimensions@.len() == 0 {
        Some("dimensions cannot be empty"@)
    } else if check_dimensions(request.dimensions@, 0, 1) is Err {
        Some(check_dimensions(request.dimensions@, 0, 1)->Err_0)
    } else if request.shard_count is None && request.shard_size is None {
        Some("Either shard_count or shard_size is required"@)
    } else if request.shard_count == Some(0usize) {
        Some("shard_count must be a positive integer"@)
    } else if request.shard_size == Some(0usize) {
        Some("shard_size must be a positive integer"@)
    } else if request.max_shards == 0 {
        Some("max_shards must be a positive integer"@)
    } else {
        None
    }
}

/// Strictly increasing: sorted with nothing twice.
pub open spec fn strictly_increasing(s: Seq<usize>) -> bool {
    forall|i: int, j: int| 0 <= i < j < s.len() ==> s[i] < s[j]
}

/// The values of `v` in increasing order, each once.
pub fn sorted_unique(v: &Vec<usize>) -> (r: Vec<usize>)
    ensures
        strictly_increasing(r@),
        r@.to_set() == v@.to_set(),
{
    let mut r: Vec<usize> = Vec::new();
    let mut i: usize = 0;
    while i < v.len()
        invariant
            i <= v.len(),
            strictly_increasing(r@),
            r@.to_set() == v@.take(i as int).to_set(),
        decreases v.len() - i,
    {
        let x = v[i];
        let mut p: usize = 0;
        while p < r.len() && r[p] < x
            invariant
                p <= r.len(),
                forall|k: int| 0 <= k < p ==> r@[k] < x,
            decreases r.len() - p,
        {
            p = p + 1;
        }
        let ghost before = r@;
        if p < r.len() && r[p] == x {
            assert(r@.to_set().insert(x) =~= r@.to_set());
        } else {
            r.insert(p, x);
            assert(r@.to_set() =~= before.to_set().insert(x)) by {
                assert forall|y: usize| r@.to_set().contains(y) implies before.to_set().insert(
                    x,
                ).contains(y) by {
                    let k = choose|k: int| 0 <= k < r@.len() && r@[k] == y;
                    if k < p {
                        assert(before[k] == y);
                    } else if k > p {
                        assert(before[k - 1] == y);
                    }
                }
                assert forall|y: usize| before.to_set().insert(x).contains(y) implies r@.to_set().contains(
                    y,
                ) by {
                    if y == x {
                        assert(r@[p as int] == x);
                    } else {
                        let k = choose|k: int| 0 <= k < before.len() && before[k] == y;
                        if k < p {
                            assert(r@[k] == y);
                        } else {
                            assert(r@[k + 1] == y);
                        }
                    }
                }
            }
        }
        assert(v@.take(i + 1) =~= v@.take(i as int).push(x));
        proof {
            v@.take(i as int).lemma_push_to_set_commute(x);
        }
        i = i + 1;
    }
    assert(v@.take(v@.len() as int) =~= v@);
    r
}

/// `n` is `request` in normal form: the run id trimmed, the dimensions kept, the number of
/// points their product, and the failure-injection shards sorted with each once.
pub open spec fn is_normalization_of(request: SweepRequest, n: NormalizedSweepRequest) -> bool {
    &&& n.run_id@ == trim_ws(request.run_id@)
    &&& n.dimensions@ == request.dimensions@
    &&& check_dimensions(request.dimensions@, 0, 1) == Ok::<nat, Seq<char>>(n.total_points as nat)
    &&& n.shard_count == request.shard_count
    &&& n.shard_size == request.shard_size
    &&& n.max_shards == request.max_shards
    &&& n.seed == request.seed
    &&& strictly_increasing(n.failure_injection_shards@)
    &&& n.failure_injection_shards@.to_set() == request.failure_injection_shards@.to_set()
}

/// Checks a sweep request and puts it in normal form: the run id trimmed, the number
/// of parameter points computed, and the failure-injection shards sorted with each once.
pub fn normalize_request(payload: SweepRequest) -> (res: Result<
    NormalizedSweepRequest,
    ValidationError,
>)
    ensures
        match res {
            Ok(n) => normalize_error(payload) is None && is_normalization_of(payload, n),
            Err(e) => normalize_error(payload) == Some(e@),
        },
{
    if is_blank(payload.run_id.as_str()) {
        return Err(ValidationError::new(crate::text::owned("run_id cannot be empty")));
    }
    let run_id = trim_set(payload.run_id.as_str(), TrimSet::Whitespace);
    if payload.dimensions.is_empty() {
        return Err(ValidationError::new(crate::text::owned("dimensions cannot be empty")));
    }
    let ghost dims = payload.dimensions@;
    let n = payload.dimensions.len();
    let mut total: usize = 1;
    let mut i: usize = 0;
    while i < n
        invariant
            i <= n == dims.len(),
            dims == payload.dimensions@,
            trim_ws(payload.run_id@).len() > 0,
            dims.len() > 0,
            1 <= total <= MAX_TOTAL_PARAMETER_POINTS,
            check_dimensions(dims, 0, 1) == check_dimensions(dims, i as nat, total as nat),
        decreases n - i,
    {
        let d = payload.dimensions.entry(i);
        if is_blank(d.name.as_str()) {
            return Err(
                ValidationError::new(
                    crate::text::owned("dimension names must be non-empty strings"),
                ),
            );
        }
        let count = d.values.len();
        if count == 0 {
            let mut m = crate::text::owned("Dimension '");
            push_str(&mut m, d.name.as_str());
            push_str(&mut m, "' must be a non-empty list");
            return Err(ValidationError::new(m));
        }
        if count > MAX_DIMENSION_VALUES {
            let mut m = crate::text::owned("Dimension '");
            push_str(&mut m, d.name.as_str());
            push_str(&mut m, "' exceeds MAX_DIMENSION_VALUES=");
            push_decimal(&mut m, MAX_DIMENSION_VALUES as u64);
            return Err(ValidationError::new(m));
        }
        proof {
            assert(total * count <= 200_000 * 10_000) by (nonlinear_arith)
                requires
                    total <= 200_000,
                    count <= 10_000,
            ;
        }
        let product = total * count;
        if product > MAX_TOTAL_PARAMETER_POINTS {
            let mut m = crate::text::owned("Parameter space is too large for this deployment (>");
            push_decimal(&mut m, MAX_TOTAL_PARAMETER_POINTS as u64);
            push_str(&mut m, " points)");
            return Err(ValidationError::new(m));
        }
        proof {
            assert(product >= 1) by (nonlinear_arith)
                requires
                    total >= 1,
                    count >= 1,
                    product == total * count,
            ;
        }
        total = product;
        i = i + 1;
    }
    if payload.shard_count.is_none() && payload.shard_size.is_none() {
        return Err(
            ValidationError::new(crate::text::owned("Either shard_count or shard_size is required")),
        );
    }
    if let Some(0) = payload.shard_count {
        return Err(ValidationError::new(crate::text::owned("shard_count must be a positive integer")));
    }
    if let Some(0) = payload.shard_size {
        return Err(ValidationError::new(crate::text::owned("shard_size must be a positive integer")));
    }
    if payload.max_shards == 0 {
        return Err(ValidationError::new(crate::text::owned("max_shards must be a positive integer")));
    }
    let failure_injection_shards = sorted_unique(&payload.failure_injection_shards);
    Ok(
        NormalizedSweepRequest {
            run_id,
            dimensions: payload.dimensions,
            total_points: total,
            shard_count: payload.shard_count,
            shard_size: payload.shard_size,
            max_shards: payload.max_shards,
            seed: payload.seed,
            failure_injection_shards,
        },
    )
}

/// The SHA-256 digest of `data`.
pub uninterp spec fn sha256_digest(data: Seq<u8>) -> Seq<u8>;

/// `sha2::Sha256::digest`: the 32-byte SHA-256 digest of `data`, a function of `data` alone.
#[verifier::external_body]
fn sha256(data: &[u8]) -> (digest: Vec<u8>)
    ensures
        digest@ == sha256_digest(data@),
        digest@.len() == 32,
{
    sha2::Sha256::digest(data).to_vec()
}

/// The lowercase hexadecimal digit for `d < 16`.
pub open spec fn hex_digit(d: nat) -> char {
    if d < 10 {
        crate::text::digit_char(d)
    } else if d == 10 {
        'a'
    } else if d == 11 {
        'b'
    } else if d == 12 {
        'c'
    } else if d == 13 {
        'd'
    } else if d == 14 {
        'e'
    } else {
        'f'
    }
}

/// Each byte as two lowercase hexadecimal digits, high digit first (as `{:x}` prints a digest).
pub open spec fn lower_hex(bytes: Seq<u8>) -> Seq<char>
    decreases bytes.len(),
{
    if bytes.len() == 0 {
        Seq::empty()
    } else {
        lower_hex(bytes.drop_last()) + seq![
            hex_digit((bytes.last() / 16) as nat),
            hex_digit((bytes.last() % 16) as nat),
        ]
    }
}

fn hex_char(d: u8) -> (c: char)
    requires
        d < 16,
    ensures
        c == hex_digit(d as nat),
{
    if d < 10 {
        crate::text::digit_of(d as u64)
    } else if d == 10 {
        'a'
    } else if d == 11 {
        'b'
    } else if d == 12 {
        'c'
    } else if d == 13 {
        'd'
    } else if d == 14 {
        'e'
    } else {
        'f'
    }
}

/// The lowercase hexadecimal notation of `bytes`.
pub fn to_lower_hex(bytes: &Vec<u8>) -> (s: String)
    ensures
        s@ == lower_hex(bytes@),
{
    let mut s = String::new();
    let mut i: usize = 0;
    while i < bytes.len()
        invariant
            i <= bytes.len(),
            s@ == lower_hex(bytes@.take(i as int)),
        decreases bytes.len() - i,
    {
        let b = bytes[i];
        crate::text::push_char(&mut s, hex_char(b / 16));
        crate::text::push_char(&mut s, hex_char(b % 16));
        assert(bytes@.take(i + 1).drop_last() =~= bytes@.take(i as int));
        i = i + 1;
    }
    assert(bytes@.take(bytes@.len() as int) =~= bytes@);
    s
}

/// The fingerprint of a normalized request: the lowercase hexadecimal SHA-256 digest of
/// the request's stable contract JSON, whose UTF-8 bytes are hashed.
pub fn request_fingerprint(stable_contract_json: &str) -> (fingerprint: String)
    ensures
        fingerprint@ == lower_hex(sha256_digest(vstd::utf8::encode_utf8(stable_contract_json@))),
        fingerprint@.len() == 64,
{
    let digest = sha256(stable_contract_json.as_bytes());
    proof {
        lemma_lower_hex_len(digest@);
    }
    to_lower_hex(&digest)
}

proof fn lemma_lower_hex_len(bytes: Seq<u8>)
    ensures
        lower_hex(bytes).len() == 2 * bytes.len(),
    decreases bytes.len(),
{
    if bytes.len() > 0 {
        lemma_lower_hex_len(bytes.drop_last());
    }
}

/// The identity of a run: its id, the orchestration schema version and the request's
/// fingerprint.
pub fn build_run_context(run_id: String, request_fingerprint: String) -> (ctx: RunContext)
    ensures
        ctx.run_id@ == run_id@,
        ctx.schema_version@ == ORCHESTRATION_SCHEMA_VERSION@,
        ctx.request_fingerprint@ == request_fingerprint@,
{
    RunContext {
        run_id,
        schema_version: crate::text::owned(ORCHESTRATION_SCHEMA_VERSION),
        request_fingerprint,
    }
}

} // verus!
