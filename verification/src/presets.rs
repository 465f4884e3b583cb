use vstd::prelude::*;
use crate::text::{
    chars_lt, chars_of, compare_chars, is_blank, is_trimmed, lemma_chars_lt_asymmetric,
    lemma_chars_lt_irreflexive, lemma_chars_lt_total, lemma_chars_lt_transitive, owned,
    push_decimal, push_str, str_eq, trim_ws,
};

verus! {

broadcast use vstd::seq_lib::group_to_multiset_ensures;

pub const PRESETS_FILE_NAME: &'static str = "sim_ui_presets.json";

pub const PRESET_FILE_VERSION: u32 = 1;

pub const AUTOSAVE_PRESET_NAME: &'static str = "autosave";

/// Why the preset store could not be read or written.
#[derive(Debug, Clone, PartialEq, Eq)]
pub enum PresetStoreError {
    /// Reading or writing the file failed.
    Io(String),
    /// The file's content is not a preset library this version accepts.
    InvalidFormat(String),
}

impl PresetStoreError {
    /// The error's message (what `Display` prints).
    pub fn message(&self) -> (m: &String)
        ensures
            *m == match self {
                PresetStoreError::Io(m) => *m,
                PresetStoreError::InvalidFormat(m) => *m,
            },
    {
        match self {
            PresetStoreError::Io(m) => m,
            PresetStoreError::InvalidFormat(m) => m,
        }
    }
}

/// A preset's name and whether it is the active one.
#[derive(Debug, Clone, PartialEq, Eq)]
pub struct PresetMetadata {
    pub name: String,
    pub is_active: bool,
}

#[derive(Debug, Clone, Copy, PartialEq, Eq, Structural)]
pub enum SaveNamedPresetOutcome {
    Saved,
    Overwritten,
    Conflict,
}

#[derive(Debug, Clone, Copy, PartialEq, Eq, Structural)]
pub enum DeleteNamedPresetOutcome {
    Deleted,
    NotFound,
}

/// A scenario saved under a name.
#[derive(Debug, Clone, PartialEq)]
pub struct NamedPreset<S> {
    pub name: String,
    pub scenario: S,
}

/// The presets of a store file: a format version, the name of the active preset, and
/// the named scenarios in the order they were first saved.
#[derive(Debug, Clone, PartialEq)]
pub struct PresetLibrary<S> {
    pub version: u32,
    pub active_preset: Option<String>,
    pub presets: Vec<NamedPreset<S>>,
}

/// A preset library as a value.
pub struct LibraryView<S> {
    pub version: u32,
    pub active: Option<Seq<char>>,
    pub presets: Seq<(Seq<char>, S)>,
}

pub open spec fn opt_view(o: Option<String>) -> Option<Seq<char>> {
    match o {
        Some(s) => Some(s@),
        None => None,
    }
}

impl<S> View for PresetLibrary<S> {
    type V = LibraryView<S>;

    open spec fn view(&self) -> LibraryView<S> {
        LibraryView {
            version: self.version,
            active: opt_view(self.active_preset),
            presets: self.presets@.map_values(|p: NamedPreset<S>| (p.name@, p.scenario)),
        }
    }
}

/// Some preset is called `name`.
pub open spec fn has_name<S>(presets: Seq<(Seq<char>, S)>, name: Seq<char>) -> bool {
    exists|i: int| 0 <= i < presets.len() && presets[i].0 == name
}

/// `i` is the first preset called `name`.
pub open spec fn is_first_named<S>(presets: Seq<(Seq<char>, S)>, name: Seq<char>, i: int) -> bool {
    &&& 0 <= i < presets.len()
    &&& presets[i].0 == name
    &&& forall|j: int| 0 <= j < i ==> presets[j].0 != name
}

/// The presets not called `name`, in order.
pub open spec fn without_name<S>(presets: Seq<(Seq<char>, S)>, name: Seq<char>) -> Seq<
    (Seq<char>, S),
>
    decreases presets.len(),
{
    if presets.len() == 0 {
        presets
    } else if presets.last().0 == name {
        without_name(presets.drop_last(), name)
    } else {
        without_name(presets.drop_last(), name).push(presets.last())
    }
}

/// The position of the first preset called `name` (meaningful when there is one).
pub open spec fn first_named<S>(presets: Seq<(Seq<char>, S)>, name: Seq<char>) -> int {
    choose|i: int| is_first_named(presets, name, i)
}

/// A name that occurs has a first occurrence.
pub proof fn lemma_first_named_exists<S>(presets: Seq<(Seq<char>, S)>, name: Seq<char>)
    requires
        has_name(presets, name),
    ensures
        is_first_named(presets, name, first_named(presets, name)),
    decreases presets.len(),
{
    if presets[0].0 == name {
        assert(is_first_named(presets, name, 0));
    } else {
        let rest = presets.drop_first();
        let k = choose|k: int| 0 <= k < presets.len() && presets[k].0 == name;
        assert(rest[k - 1].0 == name);
        lemma_first_named_exists(rest, name);
        let j = first_named(rest, name);
        assert forall|m: int| 0 <= m < j + 1 implies presets[m].0 != name by {
            if m > 0 {
                assert(presets[m] == rest[m - 1]);
            }
        }
        assert(is_first_named(presets, name, j + 1));
    }
}

/// The first preset called `name` is the only first one.
pub proof fn lemma_first_named_unique<S>(presets: Seq<(Seq<char>, S)>, name: Seq<char>, i: int)
    requires
        is_first_named(presets, name, i),
    ensures
        first_named(presets, name) == i,
{
    assert(has_name(presets, name));
    lemma_first_named_exists(presets, name);
    let j = first_named(presets, name);
    if j < i {
        assert(presets[j].0 != name);
    } else if i < j {
        assert(presets[i].0 != name);
    }
}

/// The library and outcome of saving `scenario` under `name`.
pub open spec fn spec_save_named<S>(
    lib: LibraryView<S>,
    name: Seq<char>,
    scenario: S,
    overwrite: bool,
) -> (LibraryView<S>, SaveNamedPresetOutcome) {
    if has_name(lib.presets, name) {
        if !overwrite {
            (lib, SaveNamedPresetOutcome::Conflict)
        } else {
            (
                LibraryView {
                    version: lib.version,
                    active: Some(name),
                    presets: lib.presets.update(first_named(lib.presets, name), (name, scenario)),
                },
                SaveNamedPresetOutcome::Overwritten,
            )
        }
    } else {
        (
            LibraryView {
                version: lib.version,
                active: Some(name),
                presets: lib.presets.push((name, scenario)),
            },
            SaveNamedPresetOutcome::Saved,
        )
    }
}

/// The library and outcome of deleting the presets called `name`.
pub open spec fn spec_delete_named<S>(lib: LibraryView<S>, name: Seq<char>) -> (
    LibraryView<S>,
    DeleteNamedPresetOutcome,
) {
    if has_name(lib.presets, name) {
        (
            LibraryView {
                version: lib.version,
                active: if lib.active == Some(name) {
                    None
                } else {
                    lib.active
                },
                presets: without_name(lib.presets, name),
            },
            DeleteNamedPresetOutcome::Deleted,
        )
    } else {
        (lib, DeleteNamedPresetOutcome::NotFound)
    }
}

/// The scenario of the active preset, if the active name names one.
pub open spec fn spec_active_scenario<S>(lib: LibraryView<S>) -> Option<S> {
    match lib.active {
        Some(a) => if has_name(lib.presets, a) {
            Some(lib.presets[first_named(lib.presets, a)].1)
        } else {
            None
        },
        None => None,
    }
}

impl<S> PresetLibrary<S> {
    /// A library of the current version with no presets and none active.
    pub fn empty() -> (lib: PresetLibrary<S>)
        ensures
            lib@.version == PRESET_FILE_VERSION,
            lib@.active is None,
            lib@.presets == Seq::<(Seq<char>, S)>::empty(),
    {
        let lib = PresetLibrary { version: PRESET_FILE_VERSION, active_preset: None, presets: Vec::new() };
        assert(lib@.presets =~= Seq::<(Seq<char>, S)>::empty());
        lib
    }

    /// The position of the first preset called `name`, if any.
    pub fn find_named(&self, name: &str) -> (r: Option<usize>)
        ensures
            match r {
                Some(i) => is_first_named(self@.presets, name@, i as int),
                None => !has_name(self@.presets, name@),
            },
    {
        let mut i: usize = 0;
        while i < self.presets.len()
            invariant
                i <= self.presets@.len(),
                forall|j: int| 0 <= j < i ==> self@.presets[j].0 != name@,
            decreases self.presets@.len() - i,
        {
            if str_eq(self.presets[i].name.as_str(), name) {
                return Some(i);
            }
            i = i + 1;
        }
        None
    }

    /// The scenario of the active preset: the first preset bearing the active name.
    pub fn active_scenario(&self) -> (r: Option<&S>)
        ensures
            match r {
                Some(x) => spec_active_scenario(self@) == Some(*x),
                None => spec_active_scenario(self@) is None,
            },
    {
        match &self.active_preset {
            None => None,
            Some(a) => match self.find_named(a.as_str()) {
                Some(i) => {
                    proof {
                        lemma_first_named_unique(self@.presets, a@, i as int);
                    }
                    Some(&self.presets[i].scenario)
                },
                None => None,
            },
        }
    }

    /// Saves `scenario` under `name` and makes it the active preset: into the first
    /// preset of that name when there is one and `overwrite` allows it, else as a new
    /// preset at the end. A name taken without `overwrite` is a conflict, and the
    /// library stays as it was.
    pub fn save_named(&mut self, name: &str, scenario: S, overwrite: bool) -> (outcome:
        SaveNamedPresetOutcome)
        ensures
            (final(self)@, outcome) == spec_save_named(old(self)@, name@, scenario, overwrite),
    {
        match self.find_named(name) {
            Some(i) => {
                if !overwrite {
                    return SaveNamedPresetOutcome::Conflict;
                }
                let ghost before = self@.presets;
                proof {
                    lemma_first_named_unique(before, name@, i as int);
                }
                let old_name = self.presets[i].name.clone();
                self.presets.set(i, NamedPreset { name: old_name, scenario });
                self.active_preset = Some(owned(name));
                assert(self@.presets =~= before.update(i as int, (name@, scenario)));
                SaveNamedPresetOutcome::Overwritten
            },
            None => {
                let ghost before = self@.presets;
                self.presets.push(NamedPreset { name: owned(name), scenario });
                self.active_preset = Some(owned(name));
                assert(self@.presets =~= before.push((name@, scenario)));
                SaveNamedPresetOutcome::Saved
            },
        }
    }

    /// Saves `scenario` as the autosave preset and makes it the active one.
    pub fn save_autosave(&mut self, scenario: S)
        ensures
            final(self)@ == spec_save_named(old(self)@, AUTOSAVE_PRESET_NAME@, scenario, true).0,
    {
        self.save_named(AUTOSAVE_PRESET_NAME, scenario, true);
    }

    /// Makes the first preset called `name` the active one, if there is one, and says
    /// where it is; otherwise the library stays as it was.
    pub fn select_named(&mut self, name: &str) -> (r: Option<usize>)
        ensures
            final(self)@.version == old(self)@.version,
            final(self)@.presets == old(self)@.presets,
            match r {
                Some(i) => is_first_named(old(self)@.presets, name@, i as int) && final(self)@.active == Some(name@),
                None => !has_name(old(self)@.presets, name@) && final(self)@.active == old(self)@.active,
            },
    {
        let r = self.find_named(name);
        if r.is_some() {
            self.active_preset = Some(owned(name));
        }
        r
    }

    /// Removes every preset called `name`; if that was the active name, no preset is
    /// active afterwards. With no preset of that name the library stays as it was.
    pub fn delete_named(&mut self, name: &str) -> (outcome: DeleteNamedPresetOutcome)
        ensures
            (final(self)@, outcome) == spec_delete_named(old(self)@, name@),
    {
        if self.find_named(name).is_none() {
            return DeleteNamedPresetOutcome::NotFound;
        }
        let ghost before = self@.presets;
        let mut presets: Vec<NamedPreset<S>> = Vec::new();
        std::mem::swap(&mut presets, &mut self.presets);
        let ghost all = presets@;
        let mut kept: Vec<NamedPreset<S>> = Vec::new();
        let mut i: usize = 0;
        let n = presets.len();
        while presets.len() > 0
            invariant
                n == all.len(),
                before == all.map_values(|p: NamedPreset<S>| (p.name@, p.scenario)),
                i + presets@.len() == n,
                presets@ == all.skip(i as int),
                kept@.map_values(|p: NamedPreset<S>| (p.name@, p.scenario)) == without_name(
                    before.take(i as int),
                    name@,
                ),
            decreases presets@.len(),
        {
            let p = presets.remove(0);
            let ghost prev = kept@;
            proof {
                assert(p == all[i as int]);
                assert(before.take(i + 1).drop_last() =~= before.take(i as int));
                assert(before.take(i + 1).last() == (p.name@, p.scenario));
                assert(presets@ =~= all.skip(i + 1));
            }
            if !str_eq(p.name.as_str(), name) {
                kept.push(p);
                assert(kept@.map_values(|p: NamedPreset<S>| (p.name@, p.scenario)) =~= prev.map_values(
                    |p: NamedPreset<S>| (p.name@, p.scenario),
                ).push(before.take(i + 1).last()));
            }
            i = i + 1;
        }
        assert(before.take(n as int) =~= before);
        self.presets = kept;
        let clear = match &self.active_preset {
            Some(a) => str_eq(a.as_str(), name),
            None => false,
        };
        if clear {
            self.active_preset = None;
        }
        DeleteNamedPresetOutcome::Deleted
    }
}

/// The metadata of each preset, in library order: its name and whether it is active.
pub open spec fn metadata_of<S>(lib: LibraryView<S>) -> Seq<(Seq<char>, bool)> {
    lib.presets.map_values(|p: (Seq<char>, S)| (p.0, lib.active == Some(p.0)))
}

pub open spec fn metadata_view(m: Seq<PresetMetadata>) -> Seq<(Seq<char>, bool)> {
    m.map_values(|x: PresetMetadata| (x.name@, x.is_active))
}

/// Names never decrease along the sequence.
pub open spec fn sorted_by_name(m: Seq<(Seq<char>, bool)>) -> bool {
    forall|i: int, j: int| 0 <= i < j < m.len() ==> !chars_lt(#[trigger] m[j].0, #[trigger] m[i].0)
}

impl<S> PresetLibrary<S> {
    /// The name of every preset and whether it is the active one, sorted by name.
    pub fn list_metadata(&self) -> (r: Vec<PresetMetadata>)
        ensures
            sorted_by_name(metadata_view(r@)),
            metadata_view(r@).to_multiset() == metadata_of(self@).to_multiset(),
    {
        let ghost all = metadata_of(self@);
        let mut out: Vec<PresetMetadata> = Vec::new();
        let mut i: usize = 0;
        while i < self.presets.len()
            invariant
                i <= self.presets@.len(),
                all == metadata_of(self@),
                sorted_by_name(metadata_view(out@)),
                metadata_view(out@).to_multiset() == all.take(i as int).to_multiset(),
            decreases self.presets@.len() - i,
        {
            let name = self.presets[i].name.clone();
            let is_active = match &self.active_preset {
                Some(a) => str_eq(a.as_str(), name.as_str()),
                None => false,
            };
            let key = chars_of(name.as_str());
            let mut p: usize = 0;
            while p < out.len()
                invariant_except_break
                    p <= out@.len(),
                    forall|k: int| 0 <= k < p ==> !chars_lt(key@, #[trigger] metadata_view(out@)[k].0),
                invariant
                    p <= out@.len(),
                    key@ == name@,
                ensures
                    forall|k: int| 0 <= k < p ==> !chars_lt(key@, #[trigger] metadata_view(out@)[k].0),
                    p < out@.len() ==> chars_lt(key@, metadata_view(out@)[p as int].0),
                decreases out@.len() - p,
            {
                let other = chars_of(out[p].name.as_str());
                if compare_chars(&key, &other) < 0 {
                    break;
                }
                p = p + 1;
            }
            let ghost before = metadata_view(out@);
            let item = PresetMetadata { name, is_active };
            let ghost e = (item.name@, item.is_active);
            out.insert(p, item);
            proof {
                assert(metadata_view(out@) =~= before.insert(p as int, e));
                vstd::seq_lib::to_multiset_insert(before, p as int, e);
                assert(all[i as int] == e);
                assert(all.take(i + 1) =~= all.take(i as int).push(e));
                vstd::seq_lib::to_multiset_build(all.take(i as int), e);
                let v = metadata_view(out@);
                assert forall|a: int, b: int| 0 <= a < b < v.len() implies !chars_lt(
                    #[trigger] v[b].0,
                    #[trigger] v[a].0,
                ) by {
                    if a < p && b == p {
                        assert(v[a] == before[a]);
                    } else if a < p && b > p {
                        assert(v[a] == before[a]);
                        assert(v[b] == before[b - 1]);
                    } else if a == p {
                        assert(v[b] == before[b - 1]);
                        assert(chars_lt(e.0, before[p as int].0));
                        if b - 1 > p {
                            assert(!chars_lt(before[b - 1].0, before[p as int].0));
                            lemma_chars_lt_total(before[p as int].0, before[b - 1].0);
                            if chars_lt(before[p as int].0, before[b - 1].0) {
                                lemma_chars_lt_transitive(e.0, before[p as int].0, before[b - 1].0);
                            }
                        }
                        lemma_chars_lt_asymmetric(e.0, v[b].0);
                    } else if a > p {
                        assert(v[a] == before[a - 1]);
                        assert(v[b] == before[b - 1]);
                    } else {
                        assert(v[a] == before[a]);
                        assert(v[b] == before[b]);
                    }
                }
            }
            i = i + 1;
        }
        assert(all.take(self.presets@.len() as int) =~= all);
        out
    }
}

/// Names are non-blank, free of surrounding whitespace and distinct; the active name,
/// if any, is such a name and names a preset.
pub open spec fn is_valid_library<S>(lib: LibraryView<S>) -> bool {
    &&& lib.version == PRESET_FILE_VERSION
    &&& forall|i: int|
        0 <= i < lib.presets.len() ==> trim_ws(#[trigger] lib.presets[i].0).len() > 0 && trim_ws(
            lib.presets[i].0,
        ) == lib.presets[i].0
    &&& forall|i: int, j: int|
        0 <= i < j < lib.presets.len() ==> #[trigger] lib.presets[i].0 != #[trigger] lib.presets[j].0
    &&& match lib.active {
        Some(a) => trim_ws(a).len() > 0 && trim_ws(a) == a && has_name(lib.presets, a),
        None => true,
    }
}

pub open spec fn in_source(source: Seq<char>) -> Seq<char> {
    " in '"@ + source + "'"@
}

/// The first rule that a preset from the `i`-th on breaks, as its message.
pub open spec fn preset_names_error<S>(presets: Seq<(Seq<char>, S)>, i: nat, source: Seq<char>) -> Option<
    Seq<char>,
>
    decreases presets.len() - i,
{
    if i >= presets.len() {
        None
    } else {
        let n = presets[i as int].0;
        if trim_ws(n).len() == 0 {
            Some("preset names must not be empty"@ + in_source(source))
        } else if trim_ws(n) != n {
            Some("preset names must not have surrounding whitespace"@ + in_source(source))
        } else if exists|j: int| 0 <= j < i && presets[j].0 == n {
            Some("duplicate preset name '"@ + n + "'"@ + in_source(source))
        } else {
            preset_names_error(presets, i + 1, source)
        }
    }
}

/// The message with which an import of `lib` from `source` is refused, if it is.
pub open spec fn import_error<S>(lib: LibraryView<S>, source: Seq<char>) -> Option<Seq<char>> {
    if lib.version != PRESET_FILE_VERSION {
        Some(
            "unsupported import file version "@ + crate::text::decimal(lib.version as nat) + in_source(
                source,
            ),
        )
    } else if preset_names_error(lib.presets, 0, source) is Some {
        preset_names_error(lib.presets, 0, source)
    } else {
        match lib.active {
            Some(a) => if trim_ws(a).len() == 0 {
                Some("active preset must not be empty"@ + in_source(source))
            } else if trim_ws(a) != a {
                Some("active preset must not have surrounding whitespace"@ + in_source(source))
            } else if !has_name(lib.presets, a) {
                Some("active preset '"@ + a + "' not found in import file '"@ + source + "'"@)
            } else {
                None
            },
            None => None,
        }
    }
}

proof fn lemma_names_error_none<S>(presets: Seq<(Seq<char>, S)>, i: nat, source: Seq<char>)
    requires
        i <= presets.len(),
    ensures
        preset_names_error(presets, i, source) is None <==> (forall|k: int|
            i <= k < presets.len() ==> trim_ws(#[trigger] presets[k].0).len() > 0 && trim_ws(presets[k].0)
                == presets[k].0 && forall|j: int| 0 <= j < k ==> presets[j].0 != presets[k].0),
    decreases presets.len() - i,
{
    if i < presets.len() {
        lemma_names_error_none(presets, i + 1, source);
        if preset_names_error(presets, i, source) is None {
            assert forall|k: int|
                i <= k < presets.len() implies trim_ws(#[trigger] presets[k].0).len() > 0 && trim_ws(
                presets[k].0,
            ) == presets[k].0 && forall|j: int| 0 <= j < k ==> presets[j].0 != presets[k].0 by {
                if k == i {
                    assert(!(exists|j: int| 0 <= j < i && presets[j].0 == presets[i as int].0));
                }
            }
        }
    }
}

/// An import is accepted exactly when the library is valid, whatever its source.
pub proof fn law_import_accepts_exactly_valid_libraries<S>(lib: LibraryView<S>, source: Seq<char>)
    ensures
        import_error(lib, source) is None <==> is_valid_library(lib),
{
    lemma_names_error_none(lib.presets, 0, source);
    if is_valid_library(lib) {
        assert forall|k: int|
            0 <= k < lib.presets.len() implies trim_ws(#[trigger] lib.presets[k].0).len() > 0
            && trim_ws(lib.presets[k].0) == lib.presets[k].0 && forall|j: int|
            0 <= j < k ==> lib.presets[j].0 != lib.presets[k].0 by {
            assert forall|j: int| 0 <= j < k implies lib.presets[j].0 != lib.presets[k].0 by {
                assert(lib.presets[j].0 != lib.presets[k].0);
            }
        }
    }
    if import_error(lib, source) is None {
        assert forall|i: int, j: int|
            0 <= i < j < lib.presets.len() implies #[trigger] lib.presets[i].0
            != #[trigger] lib.presets[j].0 by {
            assert(forall|jj: int| 0 <= jj < j ==> lib.presets[jj].0 != lib.presets[j].0);
        }
    }
}

fn in_source_message(head: &str, source: &str) -> (m: String)
    ensures
        m@ == head@ + in_source(source@),
{
    let mut m = owned(head);
    push_str(&mut m, " in '");
    push_str(&mut m, source);
    push_str(&mut m, "'");
    m
}

/// Accepts an imported library only if it is valid: the current version, names
/// non-blank, without surrounding whitespace and distinct, and an active name, if any,
/// that is such a name of one of its presets. `source` names the file in messages.
pub fn validate_import<S>(library: PresetLibrary<S>, source: &str) -> (res: Result<
    PresetLibrary<S>,
    PresetStoreError,
>)
    ensures
        match res {
            Ok(lib) => lib == library && import_error(library@, source@) is None,
            Err(PresetStoreError::InvalidFormat(m)) => import_error(library@, source@) == Some(m@),
            Err(PresetStoreError::Io(_)) => false,
        },
{
    if library.version != PRESET_FILE_VERSION {
        let mut m = owned("unsupported import file version ");
        push_decimal(&mut m, library.version as u64);
        push_str(&mut m, " in '");
        push_str(&mut m, source);
        push_str(&mut m, "'");
        return Err(PresetStoreError::InvalidFormat(m));
    }
    let ghost ps = library@.presets;
    let mut i: usize = 0;
    while i < library.presets.len()
        invariant
            i <= ps.len(),
            ps == library@.presets,
            library.version == PRESET_FILE_VERSION,
            preset_names_error(ps, 0, source@) == preset_names_error(ps, i as nat, source@),
        decreases ps.len() - i,
    {
        let name = &library.presets[i].name;
        assert(ps[i as int].0 == name@);
        if is_blank(name.as_str()) {
            return Err(
                PresetStoreError::InvalidFormat(
                    in_source_message("preset names must not be empty", source),
                ),
            );
        }
        if !is_trimmed(name.as_str()) {
            return Err(
                PresetStoreError::InvalidFormat(
                    in_source_message("preset names must not have surrounding whitespace", source),
                ),
            );
        }
        let mut j: usize = 0;
        while j < i
            invariant
                j <= i < ps.len(),
                ps == library@.presets,
                library.version == PRESET_FILE_VERSION,
                name@ == ps[i as int].0,
                trim_ws(name@).len() > 0,
                trim_ws(name@) == name@,
                preset_names_error(ps, 0, source@) == preset_names_error(ps, i as nat, source@),
                forall|k: int| 0 <= k < j ==> ps[k].0 != name@,
            decreases i - j,
        {
            if str_eq(library.presets[j].name.as_str(), name.as_str()) {
                assert(ps[j as int].0 == name@);
                assert(exists|jj: int| 0 <= jj < i && ps[jj].0 == ps[i as int].0);
                let mut m = owned("duplicate preset name '");
                push_str(&mut m, name.as_str());
                push_str(&mut m, "'");
                push_str(&mut m, " in '");
                push_str(&mut m, source);
                push_str(&mut m, "'");
                return Err(PresetStoreError::InvalidFormat(m));
            }
            j = j + 1;
        }
        i = i + 1;
    }
    match &library.active_preset {
        Some(active) => {
            if is_blank(active.as_str()) {
                return Err(
                    PresetStoreError::InvalidFormat(
                        in_source_message("active preset must not be empty", source),
                    ),
                );
            }
            if !is_trimmed(active.as_str()) {
                return Err(
                    PresetStoreError::InvalidFormat(
                        in_source_message("active preset must not have surrounding whitespace", source),
                    ),
                );
            }
            if library.find_named(active.as_str()).is_none() {
                let mut m = owned("active preset '");
                push_str(&mut m, active.as_str());
                push_str(&mut m, "' not found in import file '");
                push_str(&mut m, source);
                push_str(&mut m, "'");
                return Err(PresetStoreError::InvalidFormat(m));
            }
        },
        None => {},
    }
    Ok(library)
}

/// A library read from the store, refused unless it has the current version.
pub fn check_loaded_library<S>(library: PresetLibrary<S>, source: &str) -> (res: Result<
    PresetLibrary<S>,
    PresetStoreError,
>)
    ensures
        match res {
            Ok(lib) => lib == library && library.version == PRESET_FILE_VERSION,
            Err(PresetStoreError::InvalidFormat(m)) => library.version != PRESET_FILE_VERSION
                && m@ == "unsupported preset file version "@ + crate::text::decimal(
                library.version as nat,
            ) + in_source(source@),
            Err(PresetStoreError::Io(_)) => false,
        },
{
    if library.version != PRESET_FILE_VERSION {
        let mut m = owned("unsupported preset file version ");
        push_decimal(&mut m, library.version as u64);
        push_str(&mut m, " in '");
        push_str(&mut m, source);
        push_str(&mut m, "'");
        return Err(PresetStoreError::InvalidFormat(m));
    }
    Ok(library)
}

/// The library a save starts from: the stored one, or an empty one when the stored
/// file is not a valid library; an I/O failure stops the save.
pub fn library_for_save<S>(loaded: Result<PresetLibrary<S>, PresetStoreError>) -> (res: Result<
    PresetLibrary<S>,
    PresetStoreError,
>)
    ensures
        match loaded {
            Ok(lib) => res == Ok::<PresetLibrary<S>, PresetStoreError>(lib),
            Err(PresetStoreError::InvalidFormat(_)) => res matches Ok(lib) && lib@.version
                == PRESET_FILE_VERSION && lib@.active is None && lib@.presets.len() == 0,
            Err(PresetStoreError::Io(m)) => res == Err::<PresetLibrary<S>, PresetStoreError>(
                PresetStoreError::Io(m),
            ),
        },
{
    match loaded {
        Ok(lib) => Ok(lib),
        Err(PresetStoreError::InvalidFormat(_)) => Ok(PresetLibrary::empty()),
        Err(e) => Err(e),
    }
}

/// What is saved can be read back: after a save that is not a conflict, the saved
/// scenario is the active one.
pub proof fn law_saved_preset_reads_back<S>(
    lib: LibraryView<S>,
    name: Seq<char>,
    scenario: S,
    overwrite: bool,
)
    requires
        spec_save_named(lib, name, scenario, overwrite).1 != SaveNamedPresetOutcome::Conflict,
    ensures
        spec_active_scenario(spec_save_named(lib, name, scenario, overwrite).0) == Some(scenario),
{
    let after = spec_save_named(lib, name, scenario, overwrite).0;
    if has_name(lib.presets, name) {
        lemma_first_named_exists(lib.presets, name);
        let i = first_named(lib.presets, name);
        assert(is_first_named(after.presets, name, i));
        lemma_first_named_unique(after.presets, name, i);
    } else {
        let i = lib.presets.len() as int;
        assert(is_first_named(after.presets, name, i));
        lemma_first_named_unique(after.presets, name, i);
    }
}

/// A save without `overwrite` under a taken name changes nothing.
pub proof fn law_conflict_changes_nothing<S>(lib: LibraryView<S>, name: Seq<char>, scenario: S)
    requires
        has_name(lib.presets, name),
    ensures
        spec_save_named(lib, name, scenario, false) == (lib, SaveNamedPresetOutcome::Conflict),
{
}

proof fn lemma_without_name<S>(presets: Seq<(Seq<char>, S)>, name: Seq<char>)
    ensures
        forall|i: int|
            0 <= i < without_name(presets, name).len() ==> #[trigger] without_name(presets, name)[i].0
                != name,
        forall|x: (Seq<char>, S)| without_name(presets, name).contains(x) ==> presets.contains(x),
        forall|x: (Seq<char>, S)| presets.contains(x) && x.0 != name ==> without_name(presets, name).contains(x),
        (forall|i: int, j: int|
            0 <= i < j < presets.len() ==> #[trigger] presets[i].0 != #[trigger] presets[j].0) ==> (
        forall|i: int, j: int|
            0 <= i < j < without_name(presets, name).len() ==> #[trigger] without_name(presets, name)[i].0
                != #[trigger] without_name(presets, name)[j].0),
    decreases presets.len(),
{
    if presets.len() > 0 {
        let d = presets.drop_last();
        lemma_without_name(d, name);
        let w = without_name(d, name);
        assert forall|x: (Seq<char>, S)| presets.contains(x) && x.0 != name implies without_name(
            presets,
            name,
        ).contains(x) by {
            let k = choose|k: int| 0 <= k < presets.len() && presets[k] == x;
            if k < presets.len() - 1 {
                assert(d[k] == x);
                assert(d.contains(x));
                let m = choose|m: int| 0 <= m < w.len() && w[m] == x;
                if presets.last().0 != name {
                    assert(w.push(presets.last())[m] == x);
                }
            } else {
                assert(x == presets.last());
                assert(w.push(presets.last())[w.len() as int] == x);
            }
        }
        assert forall|x: (Seq<char>, S)| without_name(presets, name).contains(x) implies presets.contains(
            x,
        ) by {
            let m = choose|m: int|
                0 <= m < without_name(presets, name).len() && without_name(presets, name)[m] == x;
            if m < w.len() {
                assert(w[m] == x);
                assert(w.contains(x));
                assert(d.contains(x));
                let k = choose|k: int| 0 <= k < d.len() && d[k] == x;
                assert(d[k] == presets[k]);
                assert(presets[k] == x);
            } else {
                assert(presets[presets.len() - 1] == x);
            }
        }
        if forall|i: int, j: int|
            0 <= i < j < presets.len() ==> #[trigger] presets[i].0 != #[trigger] presets[j].0 {
            assert forall|i: int, j: int| 0 <= i < j < d.len() implies #[trigger] d[i].0
                != #[trigger] d[j].0 by {
                assert(d[i] == presets[i]);
                assert(d[j] == presets[j]);
            }
            let r = without_name(presets, name);
            assert forall|i: int, j: int| 0 <= i < j < r.len() implies #[trigger] r[i].0
                != #[trigger] r[j].0 by {
                if j == w.len() {
                    assert(r[i] == w[i]);
                    assert(w.contains(w[i]));
                    assert(d.contains(w[i]));
                    let k = choose|k: int| 0 <= k < d.len() && d[k] == w[i];
                    assert(d[k] == presets[k]);
                    assert(r[j] == presets.last());
                    assert(presets[k].0 != presets[presets.len() - 1].0);
                } else {
                    assert(r[i] == w[i]);
                    assert(r[j] == w[j]);
                }
            }
        }
    }
}

/// After a delete, no preset bears the deleted name, and if it was the active name no
/// preset is active.
pub proof fn law_deleted_name_is_gone<S>(lib: LibraryView<S>, name: Seq<char>)
    ensures
        !has_name(spec_delete_named(lib, name).0.presets, name),
        has_name(lib.presets, name) ==> spec_delete_named(lib, name).0.active != Some(name),
{
    lemma_without_name(lib.presets, name);
}

/// Saving under a non-blank name without surrounding whitespace keeps a valid library
/// valid, so the store can always export what it saved and import it again.
pub proof fn law_save_keeps_library_valid<S>(
    lib: LibraryView<S>,
    name: Seq<char>,
    scenario: S,
    overwrite: bool,
)
    requires
        is_valid_library(lib),
        trim_ws(name).len() > 0,
        trim_ws(name) == name,
    ensures
        is_valid_library(spec_save_named(lib, name, scenario, overwrite).0),
{
    let after = spec_save_named(lib, name, scenario, overwrite).0;
    if has_name(lib.presets, name) {
        lemma_first_named_exists(lib.presets, name);
        let i = first_named(lib.presets, name);
        if overwrite {
            assert(after.presets[i].0 == name);
            assert(has_name(after.presets, name));
        }
    } else {
        let n = lib.presets.len() as int;
        assert(after.presets[n].0 == name);
        assert(has_name(after.presets, name));
        match lib.active {
            Some(a) => {},
            None => {},
        }
    }
}

/// Deleting keeps a valid library valid.
pub proof fn law_delete_keeps_library_valid<S>(lib: LibraryView<S>, name: Seq<char>)
    requires
        is_valid_library(lib),
    ensures
        is_valid_library(spec_delete_named(lib, name).0),
{
    lemma_without_name(lib.presets, name);
    let w = without_name(lib.presets, name);
    if has_name(lib.presets, name) {
        assert forall|i: int| 0 <= i < w.len() implies trim_ws(#[trigger] w[i].0).len() > 0
            && trim_ws(w[i].0) == w[i].0 by {
            assert(w.contains(w[i]));
            assert(lib.presets.contains(w[i]));
            let k = choose|k: int| 0 <= k < lib.presets.len() && lib.presets[k] == w[i];
            assert(trim_ws(lib.presets[k].0).len() > 0);
        }
        match lib.active {
            Some(a) => if a != name {
                let k = choose|k: int| 0 <= k < lib.presets.len() && lib.presets[k].0 == a;
                assert(lib.presets.contains(lib.presets[k]));
                assert(w.contains(lib.presets[k]));
                let m = choose|m: int| 0 <= m < w.len() && w[m] == lib.presets[k];
                assert(w[m].0 == a);
            },
            None => {},
        }
    }
}

} // verus!
