use vstd::prelude::*;
use crate::text::{chars_of, push_chars, push_decimal, push_str, strip_trailing, TrimSet};
use crate::tiles::{current_inflight_limit, MapSignature, TileKey};

verus! {

/// Which map tiles are loaded, which are being fetched and which failed, for the map
/// view last drawn. The geometry of loaded tiles is kept by the caller.
pub struct TileBookkeeping {
    loaded: Vec<TileKey>,
    inflight: Vec<TileKey>,
    errors: Vec<(TileKey, String)>,
    last_signature: Option<MapSignature>,
}

/// The bookkeeping as values: loaded and in-flight tiles in the order they were added,
/// each at most once; the last error of each failed tile; the signature last drawn.
pub struct TileBookkeepingView {
    pub loaded: Seq<TileKey>,
    pub inflight: Seq<TileKey>,
    pub errors: Map<TileKey, Seq<char>>,
    pub last_signature: Option<MapSignature>,
}

/// The errors recorded so far, the later one winning for a tile recorded twice.
pub open spec fn error_map(errors: Seq<(TileKey, String)>) -> Map<TileKey, Seq<char>>
    decreases errors.len(),
{
    if errors.len() == 0 {
        Map::empty()
    } else {
        error_map(errors.drop_last()).insert(errors.last().0, errors.last().1@)
    }
}

/// The tiles to fetch, in the order offered: a tile that is loaded, in flight or failed
/// is passed over, and offering stops once `count` fetches are in flight, `limit` being
/// the most that may be.
pub open spec fn picked(
    offered: Seq<TileKey>,
    loaded: Seq<TileKey>,
    inflight: Seq<TileKey>,
    failed: Set<TileKey>,
    count: nat,
    limit: nat,
) -> Seq<TileKey>
    decreases offered.len(),
{
    if offered.len() == 0 {
        Seq::empty()
    } else {
        let k = offered[0];
        if loaded.contains(k) || inflight.contains(k) || failed.contains(k) {
            picked(offered.drop_first(), loaded, inflight, failed, count, limit)
        } else if count >= limit {
            Seq::empty()
        } else {
            seq![k] + picked(offered.drop_first(), loaded, inflight.push(k), failed, count + 1, limit)
        }
    }
}

/// `s` without `k`.
pub open spec fn without(s: Seq<TileKey>, k: TileKey) -> Seq<TileKey>
    decreases s.len(),
{
    if s.len() == 0 {
        s
    } else if s.last() == k {
        without(s.drop_last(), k)
    } else {
        without(s.drop_last(), k).push(s.last())
    }
}

/// `s` with `k` added at the end unless it is there already.
pub open spec fn with_key(s: Seq<TileKey>, k: TileKey) -> Seq<TileKey> {
    if s.contains(k) {
        s
    } else {
        s.push(k)
    }
}

impl View for TileBookkeeping {
    type V = TileBookkeepingView;

    closed spec fn view(&self) -> TileBookkeepingView {
        TileBookkeepingView {
            loaded: self.loaded@,
            inflight: self.inflight@,
            errors: error_map(self.errors@),
            last_signature: self.last_signature,
        }
    }
}

fn contains_key(v: &Vec<TileKey>, k: TileKey) -> (b: bool)
    ensures
        b == v@.contains(k),
{
    let mut i: usize = 0;
    while i < v.len()
        invariant
            i <= v@.len(),
            forall|j: int| 0 <= j < i ==> v@[j] != k,
        decreases v@.len() - i,
    {
        if v[i] == k {
            return true;
        }
        i = i + 1;
    }
    false
}

fn has_error(errors: &Vec<(TileKey, String)>, k: TileKey) -> (b: bool)
    ensures
        b == error_map(errors@).dom().contains(k),
{
    let mut i: usize = errors.len();
    assert(errors@.take(errors@.len() as int) =~= errors@);
    while i > 0
        invariant
            i <= errors@.len(),
            error_map(errors@).dom().contains(k) == error_map(errors@.take(i as int)).dom().contains(
                k,
            ),
        decreases i,
    {
        proof {
            assert(errors@.take(i as int).drop_last() =~= errors@.take(i - 1));
        }
        if errors[i - 1].0 == k {
            return true;
        }
        i = i - 1;
    }
    assert(errors@.take(0) =~= Seq::<(TileKey, String)>::empty());
    false
}

proof fn lemma_without_no_dup(s: Seq<TileKey>, k: TileKey)
    requires
        s.no_duplicates(),
    ensures
        without(s, k).no_duplicates(),
        forall|e: TileKey| #[trigger] without(s, k).contains(e) <==> s.contains(e) && e != k,
    decreases s.len(),
{
    if s.len() > 0 {
        let d = s.drop_last();
        assert(d.no_duplicates()) by {
            assert forall|a: int, b: int| 0 <= a < b < d.len() implies d[a] != d[b] by {
                assert(d[a] == s[a] && d[b] == s[b]);
            }
        }
        lemma_without_no_dup(d, k);
        assert forall|e: TileKey| s.contains(e) <==> d.contains(e) || e == s.last() by {
            if s.contains(e) {
                let j = choose|j: int| 0 <= j < s.len() && s[j] == e;
                if j < s.len() - 1 {
                    assert(d[j] == e);
                }
            }
            if d.contains(e) {
                let j = choose|j: int| 0 <= j < d.len() && d[j] == e;
                assert(s[j] == e);
            }
            if e == s.last() {
                assert(s[s.len() - 1] == e);
            }
        }
        if s.last() != k {
            let w = without(d, k);
            assert(!d.contains(s.last())) by {
                if d.contains(s.last()) {
                    let j = choose|j: int| 0 <= j < d.len() && d[j] == s.last();
                    assert(s[j] == s[s.len() - 1]);
                }
            }
            assert forall|a: int, b: int| 0 <= a < b < w.push(s.last()).len() implies w.push(
                s.last(),
            )[a] != w.push(s.last())[b] by {
                if b == w.len() {
                    assert(w.contains(w[a]));
                }
            }
            assert forall|e: TileKey| #[trigger] w.push(s.last()).contains(e) <==> w.contains(e)
                || e == s.last() by {
                if w.push(s.last()).contains(e) {
                    let j = choose|j: int| 0 <= j < w.push(s.last()).len() && w.push(s.last())[j] == e;
                    if j < w.len() {
                        assert(w[j] == e);
                    }
                }
                if w.contains(e) {
                    let j = choose|j: int| 0 <= j < w.len() && w[j] == e;
                    assert(w.push(s.last())[j] == e);
                }
                if e == s.last() {
                    assert(w.push(s.last())[w.len() as int] == e);
                }
            }
        }
    }
}

impl TileBookkeeping {
    #[verifier::type_invariant]
    spec fn distinct(&self) -> bool {
        self.loaded@.no_duplicates() && self.inflight@.no_duplicates()
    }

    /// Nothing loaded, fetched or failed, and no view drawn yet.
    pub fn new() -> (b: TileBookkeeping)
        ensures
            b@.loaded.len() == 0,
            b@.inflight.len() == 0,
            b@.errors == Map::<TileKey, Seq<char>>::empty(),
            b@.last_signature is None,
    {
        TileBookkeeping {
            loaded: Vec::new(),
            inflight: Vec::new(),
            errors: Vec::new(),
            last_signature: None,
        }
    }

    /// Moves to the view drawn with `signature`. A new signature forgets every tile,
    /// fetch and error, and the answer says so; the same signature changes nothing.
    pub fn update_signature(&mut self, signature: MapSignature) -> (reset: bool)
        ensures
            reset == (old(self)@.last_signature != Some(signature)),
            !reset ==> final(self)@ == old(self)@,
            reset ==> final(self)@.loaded.len() == 0 && final(self)@.inflight.len() == 0
                && final(self)@.errors == Map::<TileKey, Seq<char>>::empty()
                && final(self)@.last_signature == Some(signature),
    {
        let same = match self.last_signature {
            Some(s) => s == signature,
            None => false,
        };
        if same {
            return false;
        }
        *self = TileBookkeeping {
            loaded: Vec::new(),
            inflight: Vec::new(),
            errors: Vec::new(),
            last_signature: Some(signature),
        };
        true
    }

    /// How many tiles are loaded.
    pub fn loaded_count(&self) -> (n: usize)
        ensures
            n == self@.loaded.len(),
    {
        self.loaded.len()
    }

    /// Whether `key` is loaded.
    pub fn is_loaded(&self, key: TileKey) -> (b: bool)
        ensures
            b == self@.loaded.contains(key),
    {
        contains_key(&self.loaded, key)
    }

    /// The tiles to fetch now, among those `offered`, in their order: see `picked`, with
    /// the limit that the number of loaded tiles sets. They are noted as in flight.
    pub fn select_requests(&mut self, offered: &Vec<TileKey>) -> (chosen: Vec<TileKey>)
        ensures
            chosen@ == picked(
                offered@,
                old(self)@.loaded,
                old(self)@.inflight,
                old(self)@.errors.dom(),
                old(self)@.inflight.len(),
                current_inflight_limit_spec(old(self)@.loaded.len()),
            ),
            final(self)@.inflight == old(self)@.inflight + chosen@,
            final(self)@.loaded == old(self)@.loaded,
            final(self)@.errors == old(self)@.errors,
            final(self)@.last_signature == old(self)@.last_signature,
    {
        proof {
            use_type_invariant(&*self);
        }
        let limit = current_inflight_limit(self.loaded.len());
        let ghost loaded = self.loaded@;
        let ghost failed = error_map(self.errors@).dom();
        let ghost inflight0 = self.inflight@;
        let ghost goal = picked(offered@, loaded, inflight0, failed, inflight0.len(), limit as nat);
        let mut inflight = Vec::new();
        std::mem::swap(&mut inflight, &mut self.inflight);
        let mut chosen: Vec<TileKey> = Vec::new();
        let mut i: usize = 0;
        assert(offered@.skip(0) =~= offered@);
        assert(inflight@ =~= inflight0 + chosen@);
        assert(chosen@ + goal =~= goal);
        while i < offered.len()
            invariant_except_break
                i <= offered@.len(),
                inflight@ == inflight0 + chosen@,
                inflight@.no_duplicates(),
                loaded == self.loaded@,
                failed == error_map(self.errors@).dom(),
                chosen@ + picked(
                    offered@.skip(i as int),
                    loaded,
                    inflight@,
                    failed,
                    inflight@.len(),
                    limit as nat,
                ) == goal,
            ensures
                inflight@ == inflight0 + chosen@,
                inflight@.no_duplicates(),
                loaded == self.loaded@,
                chosen@ == goal,
            decreases offered@.len() - i,
        {
            let k = offered[i];
            proof {
                assert(offered@.skip(i as int)[0] == k);
                assert(offered@.skip(i as int).drop_first() =~= offered@.skip(i + 1));
            }
            if contains_key(&self.loaded, k) || contains_key(&inflight, k) || has_error(
                &self.errors,
                k,
            ) {
                i = i + 1;
            } else if inflight.len() >= limit {
                assert(chosen@ + Seq::<TileKey>::empty() =~= chosen@);
                break;
            } else {
                let ghost before = chosen@;
                inflight.push(k);
                chosen.push(k);
                proof {
                    assert(before + (seq![k] + picked(
                        offered@.skip(i + 1),
                        loaded,
                        inflight@,
                        failed,
                        inflight@.len(),
                        limit as nat,
                    )) =~= chosen@ + picked(
                        offered@.skip(i + 1),
                        loaded,
                        inflight@,
                        failed,
                        inflight@.len(),
                        limit as nat,
                    ));
                    assert(inflight@ =~= inflight0 + chosen@);
                }
                i = i + 1;
            }
        }
        proof {
            if i == offered.len() {
                assert(offered@.skip(i as int) =~= Seq::<TileKey>::empty());
                assert(chosen@ + Seq::<TileKey>::empty() =~= chosen@);
            }
        }
        self.inflight = inflight;
        chosen
    }

    /// Takes in the answer of the fetch of `key`: it is no longer in flight; an error is
    /// recorded for it; else, when geometry came, it is loaded and the answer says to keep
    /// that geometry.
    pub fn apply_result(&mut self, key: TileKey, error: Option<String>, has_geometry: bool) -> (keep: bool)
        ensures
            keep == (error is None && has_geometry),
            final(self)@.inflight == without(old(self)@.inflight, key),
            final(self)@.errors == match error {
                Some(e) => old(self)@.errors.insert(key, e@),
                None => old(self)@.errors,
            },
            final(self)@.loaded == if keep {
                with_key(old(self)@.loaded, key)
            } else {
                old(self)@.loaded
            },
            final(self)@.last_signature == old(self)@.last_signature,
    {
        proof {
            use_type_invariant(&*self);
            lemma_without_no_dup(self.inflight@, key);
        }
        let mut kept: Vec<TileKey> = Vec::new();
        let mut i: usize = 0;
        while i < self.inflight.len()
            invariant
                i <= self.inflight@.len(),
                kept@ == without(self.inflight@.take(i as int), key),
            decreases self.inflight@.len() - i,
        {
            proof {
                assert(self.inflight@.take(i + 1).drop_last() =~= self.inflight@.take(i as int));
                assert(self.inflight@.take(i + 1).last() == self.inflight@[i as int]);
            }
            if self.inflight[i] != key {
                kept.push(self.inflight[i]);
            }
            i = i + 1;
        }
        assert(self.inflight@.take(self.inflight@.len() as int) =~= self.inflight@);
        self.inflight = kept;
        match error {
            Some(e) => {
                let mut errors = Vec::new();
                std::mem::swap(&mut errors, &mut self.errors);
                let ghost before = errors@;
                errors.push((key, e));
                assert(errors@.drop_last() =~= before);
                self.errors = errors;
                false
            },
            None => {
                if has_geometry {
                    if !contains_key(&self.loaded, key) {
                        let mut loaded = Vec::new();
                        std::mem::swap(&mut loaded, &mut self.loaded);
                        let ghost before = loaded@;
                        loaded.push(key);
                        proof {
                            assert forall|a: int, b: int|
                                0 <= a < b < loaded@.len() implies loaded@[a] != loaded@[b] by {
                                if b == loaded@.len() - 1 {
                                    assert(loaded@[a] == before[a]);
                                }
                            }
                        }
                        self.loaded = loaded;
                    }
                }
                has_geometry
            },
        }
    }
}

/// The in-flight limit as a number.
pub open spec fn current_inflight_limit_spec(tile_count: nat) -> nat {
    if tile_count >= 6 {
        12
    } else {
        4
    }
}

/// The address of a tile at a routing server: the endpoint without trailing slashes,
/// then `/tile/v1/driving/tile(x,y,z).mvt`.
pub fn tile_url(endpoint: &str, key: TileKey) -> (url: String)
    ensures
        url@ == strip_trailing(endpoint@, TrimSet::Slash) + "/tile/v1/driving/tile("@
            + crate::text::decimal(key.x as nat) + ","@ + crate::text::decimal(key.y as nat) + ","@
            + crate::text::decimal(key.z as nat) + ").mvt"@,
{
    let chars = chars_of(endpoint);
    let n = chars.len();
    let mut b: usize = n;
    assert(chars@.subrange(0, n as int) =~= chars@);
    while b > 0 && chars[b - 1] == '/'
        invariant
            b <= n == chars.len(),
            strip_trailing(chars@, TrimSet::Slash) == strip_trailing(
                chars@.subrange(0, b as int),
                TrimSet::Slash,
            ),
        decreases b,
    {
        assert(chars@.subrange(0, b as int).drop_last() =~= chars@.subrange(0, b - 1));
        b = b - 1;
    }
    let mut url = String::new();
    push_chars(&mut url, &chars, 0, b);
    assert(Seq::<char>::empty() + chars@.subrange(0, b as int) =~= chars@.subrange(0, b as int));
    push_str(&mut url, "/tile/v1/driving/tile(");
    push_decimal(&mut url, key.x as u64);
    push_str(&mut url, ",");
    push_decimal(&mut url, key.y as u64);
    push_str(&mut url, ",");
    push_decimal(&mut url, key.z as u64);
    push_str(&mut url, ").mvt");
    url
}

} // verus!
