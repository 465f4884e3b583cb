use vstd::prelude::*;
use crate::presets::{
    metadata_view, opt_view, DeleteNamedPresetOutcome, PresetMetadata, SaveNamedPresetOutcome,
};
use crate::text::{is_blank, owned, push_str, str_eq, trim_set, trim_ws, TrimSet};

verus! {

/// The preset controls of the simulator: what the user typed, which presets the store
/// holds, which one is selected, and the last message shown. Reading and writing the
/// store is left to the caller: each action is asked for first (the panel says whether
/// it may go ahead and with which name), and then told how the store answered.
pub struct PresetPanel {
    /// A simulation is running; presets may not change meanwhile.
    pub started: bool,
    /// A store file is configured.
    pub storage_available: bool,
    pub preset_name_input: String,
    pub preset_transfer_path_input: String,
    pub pending_overwrite_name: Option<String>,
    pub selected_preset_name: Option<String>,
    pub active_preset_name: Option<String>,
    pub preset_names: Vec<String>,
    pub preset_status_message: Option<String>,
    pub preset_save_error: Option<String>,
    pub preset_load_error: Option<String>,
}

/// The preset controls as values.
#[verifier::ext_equal]
pub struct PresetPanelView {
    pub started: bool,
    pub storage_available: bool,
    pub name_input: Seq<char>,
    pub transfer_path_input: Seq<char>,
    pub pending_overwrite: Option<Seq<char>>,
    pub selected: Option<Seq<char>>,
    pub active: Option<Seq<char>>,
    pub names: Seq<Seq<char>>,
    pub status: Option<Seq<char>>,
    pub save_error: Option<Seq<char>>,
    pub load_error: Option<Seq<char>>,
}

impl View for PresetPanel {
    type V = PresetPanelView;

    open spec fn view(&self) -> PresetPanelView {
        PresetPanelView {
            started: self.started,
            storage_available: self.storage_available,
            name_input: self.preset_name_input@,
            transfer_path_input: self.preset_transfer_path_input@,
            pending_overwrite: opt_view(self.pending_overwrite_name),
            selected: opt_view(self.selected_preset_name),
            active: opt_view(self.active_preset_name),
            names: self.preset_names@.map_values(|s: String| s@),
            status: opt_view(self.preset_status_message),
            save_error: opt_view(self.preset_save_error),
            load_error: opt_view(self.preset_load_error),
        }
    }
}

pub open spec fn msg_actions_disabled() -> Seq<char> {
    "Preset actions are disabled while simulation is running."@
}

pub open spec fn msg_storage_unavailable() -> Seq<char> {
    "Preset storage is unavailable."@
}

/// `v` with `status` as its message.
pub open spec fn with_status(v: PresetPanelView, status: Seq<char>) -> PresetPanelView {
    PresetPanelView { status: Some(status), ..v }
}

/// `v` with `save_error` as its save warning.
pub open spec fn with_save_error(v: PresetPanelView, save_error: Option<Seq<char>>) -> PresetPanelView {
    PresetPanelView { save_error, ..v }
}

/// `v` with no overwrite pending.
pub open spec fn without_pending(v: PresetPanelView) -> PresetPanelView {
    PresetPanelView { pending_overwrite: None, ..v }
}

/// The name of the first active preset of a listing.
pub open spec fn first_active(m: Seq<(Seq<char>, bool)>) -> Option<Seq<char>>
    decreases m.len(),
{
    if m.len() == 0 {
        None
    } else if m[0].1 {
        Some(m[0].0)
    } else {
        first_active(m.drop_first())
    }
}

/// The panel after reading the store's listing: without a store it lists nothing; a
/// listing that was read replaces the names and the active one; a failed read is shown
/// as a load warning and changes nothing else.
pub open spec fn refreshed(v: PresetPanelView, listing: Result<Seq<(Seq<char>, bool)>, Seq<char>>) -> PresetPanelView {
    if !v.storage_available {
        PresetPanelView { names: Seq::empty(), active: None, ..v }
    } else {
        match listing {
            Ok(m) => PresetPanelView {
                active: first_active(m),
                names: m.map_values(|e: (Seq<char>, bool)| e.0),
                load_error: None,
                ..v
            },
            Err(e) => PresetPanelView { load_error: Some("Preset load warning: "@ + e), ..v },
        }
    }
}

/// The selection kept after the listing changed: the previous one while it is still
/// listed, else the active preset, else the first listed, else none.
pub open spec fn reconciled(v: PresetPanelView, previous: Option<Seq<char>>) -> PresetPanelView {
    PresetPanelView {
        selected: if previous is Some && v.names.contains(previous->0) {
            previous
        } else if v.active is Some {
            v.active
        } else if v.names.len() > 0 {
            Some(v.names[0])
        } else {
            None
        },
        ..v
    }
}

/// A listing read from the store, as values.
pub open spec fn listing_view(listing: Result<Vec<PresetMetadata>, String>) -> Result<
    Seq<(Seq<char>, bool)>,
    Seq<char>,
> {
    match listing {
        Ok(m) => Ok(metadata_view(m@)),
        Err(e) => Err(e@),
    }
}

/// The panel after a named save that the store answered with `outcome`.
pub open spec fn after_save(
    v: PresetPanelView,
    name: Seq<char>,
    outcome: Result<SaveNamedPresetOutcome, Seq<char>>,
    listing: Result<Seq<(Seq<char>, bool)>, Seq<char>>,
) -> PresetPanelView {
    match outcome {
        Ok(SaveNamedPresetOutcome::Saved) => PresetPanelView {
            selected: Some(name),
            ..refreshed(
                PresetPanelView {
                    pending_overwrite: None,
                    name_input: name,
                    status: Some("Saved preset '"@ + name + "'."@),
                    ..v
                },
                listing,
            )
        },
        Ok(SaveNamedPresetOutcome::Conflict) => PresetPanelView {
            pending_overwrite: Some(name),
            status: Some("Preset '"@ + name + "' already exists. Confirm overwrite to replace it."@),
            ..v
        },
        Ok(SaveNamedPresetOutcome::Overwritten) => PresetPanelView {
            selected: Some(name),
            ..refreshed(
                PresetPanelView {
                    pending_overwrite: None,
                    status: Some("Overwrote preset '"@ + name + "'."@),
                    ..v
                },
                listing,
            )
        },
        Err(e) => PresetPanelView {
            pending_overwrite: None,
            status: Some("Preset save warning: "@ + e),
            ..v
        },
    }
}

/// The panel after a confirmed overwrite that the store answered with `outcome`.
pub open spec fn after_overwrite(
    v: PresetPanelView,
    name: Seq<char>,
    outcome: Result<SaveNamedPresetOutcome, Seq<char>>,
    listing: Result<Seq<(Seq<char>, bool)>, Seq<char>>,
) -> PresetPanelView {
    match outcome {
        Ok(SaveNamedPresetOutcome::Conflict) => PresetPanelView {
            pending_overwrite: Some(name),
            status: Some("Preset '"@ + name + "' still conflicts. Try again."@),
            ..v
        },
        Ok(_) => PresetPanelView {
            selected: Some(name),
            ..refreshed(
                PresetPanelView {
                    pending_overwrite: None,
                    name_input: name,
                    status: Some("Overwrote preset '"@ + name + "'."@),
                    ..v
                },
                listing,
            )
        },
        Err(e) => PresetPanelView {
            pending_overwrite: None,
            status: Some("Preset save warning: "@ + e),
            ..v
        },
    }
}

/// The panel after loading `name`: `Ok(true)` when the store had it, `Ok(false)` when
/// it no longer does.
pub open spec fn after_load(
    v: PresetPanelView,
    name: Seq<char>,
    outcome: Result<bool, Seq<char>>,
    listing: Result<Seq<(Seq<char>, bool)>, Seq<char>>,
) -> PresetPanelView {
    match outcome {
        Ok(true) => PresetPanelView {
            selected: Some(name),
            ..refreshed(
                PresetPanelView {
                    pending_overwrite: None,
                    name_input: name,
                    status: Some("Loaded preset '"@ + name + "'."@),
                    ..v
                },
                listing,
            )
        },
        Ok(false) => refreshed(with_status(v, "Preset '"@ + name + "' no longer exists."@), listing),
        Err(e) => with_status(v, "Preset load warning: "@ + e),
    }
}

/// The panel after deleting `name`.
pub open spec fn after_delete(
    v: PresetPanelView,
    name: Seq<char>,
    outcome: Result<DeleteNamedPresetOutcome, Seq<char>>,
    listing: Result<Seq<(Seq<char>, bool)>, Seq<char>>,
) -> PresetPanelView {
    match outcome {
        Ok(DeleteNamedPresetOutcome::Deleted) => {
            let cleared = if v.pending_overwrite == Some(name) {
                PresetPanelView { pending_overwrite: None, ..v }
            } else {
                v
            };
            let r = refreshed(with_status(cleared, "Deleted preset '"@ + name + "'."@), listing);
            reconciled(r, r.selected)
        },
        Ok(DeleteNamedPresetOutcome::NotFound) => refreshed(
            with_status(v, "Preset '"@ + name + "' no longer exists."@),
            listing,
        ),
        Err(e) => with_status(v, "Preset delete warning: "@ + e),
    }
}

/// The panel after importing a library from `path`.
pub open spec fn after_import(
    v: PresetPanelView,
    path: Seq<char>,
    result: Result<(), Seq<char>>,
    listing: Result<Seq<(Seq<char>, bool)>, Seq<char>>,
) -> PresetPanelView {
    match result {
        Ok(()) => with_status(
            reconciled(refreshed(PresetPanelView { pending_overwrite: None, ..v }, listing), v.selected),
            "Imported preset library from '"@ + path + "'."@,
        ),
        Err(e) => with_status(v, "Preset import warning: "@ + e),
    }
}

pub open spec fn result_view<T>(r: Result<T, String>) -> Result<T, Seq<char>> {
    match r {
        Ok(t) => Ok(t),
        Err(e) => Err(e@),
    }
}

fn message(prefix: &str, name: &str, suffix: &str) -> (m: String)
    ensures
        m@ == prefix@ + name@ + suffix@,
{
    let mut m = owned(prefix);
    push_str(&mut m, name);
    push_str(&mut m, suffix);
    m
}

fn prefixed(prefix: &str, text: &str) -> (m: String)
    ensures
        m@ == prefix@ + text@,
{
    let mut m = owned(prefix);
    push_str(&mut m, text);
    m
}

fn copy_string(s: &String) -> (r: String)
    ensures
        r@ == s@,
{
    owned(s.as_str())
}

fn copy_opt(o: &Option<String>) -> (r: Option<String>)
    ensures
        opt_view(r) == opt_view(*o),
{
    match o {
        Some(s) => Some(copy_string(s)),
        None => None,
    }
}

impl PresetPanel {
    /// Presets may change only while no simulation runs.
    pub fn can_mutate_presets(&self) -> (b: bool)
        ensures
            b == !self.started,
    {
        !self.started
    }

    /// Whether the names listed include `name`.
    fn lists(&self, name: &String) -> (b: bool)
        ensures
            b == self@.names.contains(name@),
    {
        let mut i: usize = 0;
        while i < self.preset_names.len()
            invariant
                i <= self.preset_names@.len(),
                forall|k: int| 0 <= k < i ==> self.preset_names@[k]@ != name@,
            decreases self.preset_names@.len() - i,
        {
            if str_eq(self.preset_names[i].as_str(), name.as_str()) {
                assert(self@.names[i as int] == name@);
                return true;
            }
            i = i + 1;
        }
        assert forall|k: int| 0 <= k < self@.names.len() implies self@.names[k] != name@ by {
            assert(self@.names[k] == self.preset_names@[k]@);
        }
        false
    }

    /// Takes in the store's listing: see `refreshed`.
    pub fn refresh_presets(&mut self, listing: Result<Vec<PresetMetadata>, String>)
        ensures
            final(self)@ == refreshed(old(self)@, listing_view(listing)),
    {
        if !self.storage_available {
            self.preset_names = Vec::new();
            self.active_preset_name = None;
            assert(final(self)@.names =~= Seq::<Seq<char>>::empty());
            return;
        }
        match listing {
            Ok(metadata) => {
                let ghost m = metadata_view(metadata@);
                let mut names: Vec<String> = Vec::new();
                let mut active: Option<String> = None;
                let mut i: usize = 0;
                while i < metadata.len()
                    invariant
                        i <= metadata@.len(),
                        m == metadata_view(metadata@),
                        names@.map_values(|s: String| s@) =~= m.take(i as int).map_values(
                            |e: (Seq<char>, bool)| e.0,
                        ),
                        opt_view(active) == first_active(m.take(i as int)),
                    decreases metadata@.len() - i,
                {
                    proof {
                        lemma_first_active_push(m.take(i as int), m[i as int]);
                        assert(m.take(i as int).push(m[i as int]) =~= m.take(i + 1));
                    }
                    if active.is_none() && metadata[i].is_active {
                        active = Some(copy_string(&metadata[i].name));
                    }
                    let ghost before = names@;
                    names.push(copy_string(&metadata[i].name));
                    proof {
                        assert(m[i as int].0 == metadata@[i as int].name@);
                        assert(names@.map_values(|s: String| s@) =~= before.map_values(|s: String| s@).push(
                            m[i as int].0,
                        ));
                        assert(m.take(i + 1).map_values(|e: (Seq<char>, bool)| e.0) =~= m.take(
                            i as int,
                        ).map_values(|e: (Seq<char>, bool)| e.0).push(m[i as int].0));
                    }
                    i = i + 1;
                }
                assert(m.take(metadata@.len() as int) =~= m);
                self.preset_names = names;
                self.active_preset_name = active;
                self.preset_load_error = None;
            },
            Err(e) => {
                self.preset_load_error = Some(prefixed("Preset load warning: ", e.as_str()));
            },
        }
    }

    /// Keeps `previous` selected while it is listed: see `reconciled`.
    pub fn reconcile_selected_preset(&mut self, previous: Option<String>)
        ensures
            final(self)@ == reconciled(old(self)@, opt_view(previous)),
    {
        let keep = match &previous {
            Some(p) => self.lists(p),
            None => false,
        };
        if keep {
            self.selected_preset_name = previous;
        } else if self.active_preset_name.is_some() {
            self.selected_preset_name = copy_opt(&self.active_preset_name);
        } else if self.preset_names.len() > 0 {
            self.selected_preset_name = Some(copy_string(&self.preset_names[0]));
        } else {
            self.selected_preset_name = None;
        }
    }

    /// Whether the autosave may be written now; while a simulation runs it may not, and
    /// the save warning says so.
    pub fn autosave_request(&mut self) -> (go: bool)
        ensures
            go == (!old(self).started && old(self).storage_available),
            final(self)@ == if old(self).started {
                with_save_error(
                    old(self)@,
                    Some("Preset mutating actions are disabled while simulation is running."@),
                )
            } else {
                old(self)@
            },
    {
        if self.started {
            self.preset_save_error = Some(
                owned("Preset mutating actions are disabled while simulation is running."),
            );
            return false;
        }
        self.storage_available
    }

    /// Takes in how the store answered the autosave.
    pub fn autosave_done(&mut self, result: Result<(), String>)
        ensures
            final(self)@ == with_save_error(
                old(self)@,
                match result {
                    Ok(()) => None,
                    Err(e) => Some("Preset save warning: "@ + e@),
                },
            ),
    {
        match result {
            Ok(()) => {
                self.preset_save_error = None;
            },
            Err(e) => {
                self.preset_save_error = Some(prefixed("Preset save warning: ", e.as_str()));
            },
        }
    }

    /// The name to save the current scenario under, trimmed; or none, with a message
    /// saying why not.
    pub fn save_named_request(&mut self) -> (name: Option<String>)
        ensures
            old(self).started ==> name is None && final(self)@ == with_status(
                old(self)@,
                msg_actions_disabled(),
            ),
            !old(self).started && !old(self).storage_available ==> name is None && final(self)@
                == with_status(old(self)@, msg_storage_unavailable()),
            !old(self).started && old(self).storage_available && trim_ws(old(self)@.name_input).len()
                == 0 ==> name is None && final(self)@ == with_status(
                old(self)@,
                "Preset name cannot be empty."@,
            ),
            !old(self).started && old(self).storage_available && trim_ws(old(self)@.name_input).len()
                > 0 ==> opt_view(name) == Some(trim_ws(old(self)@.name_input)) && final(self)@
                == old(self)@,
    {
        if self.started {
            self.preset_status_message = Some(owned(
                "Preset actions are disabled while simulation is running.",
            ));
            return None;
        }
        if !self.storage_available {
            self.preset_status_message = Some(owned("Preset storage is unavailable."));
            return None;
        }
        if is_blank(self.preset_name_input.as_str()) {
            self.preset_status_message = Some(owned("Preset name cannot be empty."));
            return None;
        }
        Some(trim_set(self.preset_name_input.as_str(), TrimSet::Whitespace))
    }

    /// Takes in how the store answered the save of `name`, and its listing afterwards.
    pub fn save_named_done(
        &mut self,
        name: String,
        outcome: Result<SaveNamedPresetOutcome, String>,
        listing: Result<Vec<PresetMetadata>, String>,
    )
        ensures
            final(self)@ == after_save(old(self)@, name@, result_view(outcome), listing_view(listing)),
    {
        match outcome {
            Ok(SaveNamedPresetOutcome::Saved) => {
                self.pending_overwrite_name = None;
                self.preset_name_input = copy_string(&name);
                self.preset_status_message = Some(message("Saved preset '", name.as_str(), "'."));
                self.refresh_presets(listing);
                self.selected_preset_name = Some(name);
            },
            Ok(SaveNamedPresetOutcome::Conflict) => {
                self.preset_status_message = Some(
                    message(
                        "Preset '",
                        name.as_str(),
                        "' already exists. Confirm overwrite to replace it.",
                    ),
                );
                self.pending_overwrite_name = Some(name);
            },
            Ok(SaveNamedPresetOutcome::Overwritten) => {
                self.pending_overwrite_name = None;
                self.preset_status_message = Some(message("Overwrote preset '", name.as_str(), "'."));
                self.refresh_presets(listing);
                self.selected_preset_name = Some(name);
            },
            Err(e) => {
                self.pending_overwrite_name = None;
                self.preset_status_message = Some(prefixed("Preset save warning: ", e.as_str()));
            },
        }
    }

    /// The name whose overwrite was asked for, if one is pending and may be written now;
    /// otherwise none, with a message saying why not where there is one.
    pub fn confirm_overwrite_request(&mut self) -> (name: Option<String>)
        ensures
            old(self).started ==> name is None && final(self)@ == with_status(
                old(self)@,
                msg_actions_disabled(),
            ),
            !old(self).started && old(self).pending_overwrite_name is None ==> name is None
                && final(self)@ == old(self)@,
            !old(self).started && old(self).pending_overwrite_name is Some
                && !old(self).storage_available ==> name is None && final(self)@ == with_status(
                old(self)@,
                msg_storage_unavailable(),
            ),
            !old(self).started && old(self).pending_overwrite_name is Some
                && old(self).storage_available ==> opt_view(name)
                == old(self)@.pending_overwrite && final(self)@ == old(self)@,
    {
        if self.started {
            self.preset_status_message = Some(owned(
                "Preset actions are disabled while simulation is running.",
            ));
            return None;
        }
        let name = match &self.pending_overwrite_name {
            Some(n) => copy_string(n),
            None => {
                return None;
            },
        };
        if !self.storage_available {
            self.preset_status_message = Some(owned("Preset storage is unavailable."));
            return None;
        }
        Some(name)
    }

    /// Takes in how the store answered the overwrite of `name`, and its listing afterwards.
    pub fn confirm_overwrite_done(
        &mut self,
        name: String,
        outcome: Result<SaveNamedPresetOutcome, String>,
        listing: Result<Vec<PresetMetadata>, String>,
    )
        ensures
            final(self)@ == after_overwrite(
                old(self)@,
                name@,
                result_view(outcome),
                listing_view(listing),
            ),
    {
        match outcome {
            Ok(SaveNamedPresetOutcome::Conflict) => {
                self.preset_status_message = Some(
                    message("Preset '", name.as_str(), "' still conflicts. Try again."),
                );
                self.pending_overwrite_name = Some(name);
            },
            Ok(_) => {
                self.pending_overwrite_name = None;
                self.preset_name_input = copy_string(&name);
                self.preset_status_message = Some(message("Overwrote preset '", name.as_str(), "'."));
                self.refresh_presets(listing);
                self.selected_preset_name = Some(name);
            },
            Err(e) => {
                self.pending_overwrite_name = None;
                self.preset_status_message = Some(prefixed("Preset save warning: ", e.as_str()));
            },
        }
    }

    /// Drops a pending overwrite.
    pub fn cancel_overwrite_named_preset(&mut self)
        ensures
            final(self)@ == with_status(without_pending(old(self)@), "Overwrite canceled."@),
    {
        self.pending_overwrite_name = None;
        self.preset_status_message = Some(owned("Overwrite canceled."));
    }

    /// The selected name for a load or a delete, if the action may go ahead; otherwise
    /// none, with a message saying why not. `verb` names the action in that message.
    fn selected_request(&mut self, verb: &str) -> (name: Option<String>)
        ensures
            old(self).started ==> name is None && final(self)@ == with_status(
                old(self)@,
                msg_actions_disabled(),
            ),
            !old(self).started && old(self).selected_preset_name is None ==> name is None
                && final(self)@ == with_status(old(self)@, "Select a preset to "@ + verb@ + "."@),
            !old(self).started && old(self).selected_preset_name is Some
                && !old(self).storage_available ==> name is None && final(self)@ == with_status(
                old(self)@,
                msg_storage_unavailable(),
            ),
            !old(self).started && old(self).selected_preset_name is Some
                && old(self).storage_available ==> opt_view(name)
                == old(self)@.selected && final(self)@ == old(self)@,
    {
        if self.started {
            self.preset_status_message = Some(owned(
                "Preset actions are disabled while simulation is running.",
            ));
            return None;
        }
        let name = match &self.selected_preset_name {
            Some(n) => copy_string(n),
            None => {
                self.preset_status_message = Some(message("Select a preset to ", verb, "."));
                return None;
            },
        };
        if !self.storage_available {
            self.preset_status_message = Some(owned("Preset storage is unavailable."));
            return None;
        }
        Some(name)
    }

    /// The selected name to load, if a load may go ahead; otherwise none, with a message
    /// saying why not.
    pub fn load_request(&mut self) -> (name: Option<String>)
        ensures
            old(self).started ==> name is None && final(self)@ == with_status(
                old(self)@,
                msg_actions_disabled(),
            ),
            !old(self).started && old(self).selected_preset_name is None ==> name is None
                && final(self)@ == with_status(old(self)@, "Select a preset to load."@),
            !old(self).started && old(self).selected_preset_name is Some
                && !old(self).storage_available ==> name is None && final(self)@ == with_status(
                old(self)@,
                msg_storage_unavailable(),
            ),
            !old(self).started && old(self).selected_preset_name is Some
                && old(self).storage_available ==> opt_view(name)
                == old(self)@.selected && final(self)@ == old(self)@,
    {
        proof {
            reveal_strlit("load");
            reveal_strlit("Select a preset to ");
            reveal_strlit(".");
            reveal_strlit("Select a preset to load.");
        }
        self.selected_request("load")
    }

    /// Takes in whether the store still had `name` (`Ok(true)`), and its listing
    /// afterwards. The caller applies the loaded scenario to its controls.
    pub fn load_done(
        &mut self,
        name: String,
        outcome: Result<bool, String>,
        listing: Result<Vec<PresetMetadata>, String>,
    )
        ensures
            final(self)@ == after_load(old(self)@, name@, result_view(outcome), listing_view(listing)),
    {
        match outcome {
            Ok(true) => {
                self.pending_overwrite_name = None;
                self.preset_name_input = copy_string(&name);
                self.preset_status_message = Some(message("Loaded preset '", name.as_str(), "'."));
                self.refresh_presets(listing);
                self.selected_preset_name = Some(name);
            },
            Ok(false) => {
                self.preset_status_message = Some(
                    message("Preset '", name.as_str(), "' no longer exists."),
                );
                self.refresh_presets(listing);
            },
            Err(e) => {
                self.preset_status_message = Some(prefixed("Preset load warning: ", e.as_str()));
            },
        }
    }

    /// The selected name to delete, if a delete may go ahead; otherwise none, with a
    /// message saying why not.
    pub fn delete_request(&mut self) -> (name: Option<String>)
        ensures
            old(self).started ==> name is None && final(self)@ == with_status(
                old(self)@,
                msg_actions_disabled(),
            ),
            !old(self).started && old(self).selected_preset_name is None ==> name is None
                && final(self)@ == with_status(old(self)@, "Select a preset to delete."@),
            !old(self).started && old(self).selected_preset_name is Some
                && !old(self).storage_available ==> name is None && final(self)@ == with_status(
                old(self)@,
                msg_storage_unavailable(),
            ),
            !old(self).started && old(self).selected_preset_name is Some
                && old(self).storage_available ==> opt_view(name)
                == old(self)@.selected && final(self)@ == old(self)@,
    {
        proof {
            reveal_strlit("delete");
            reveal_strlit("Select a preset to ");
            reveal_strlit(".");
            reveal_strlit("Select a preset to delete.");
        }
        self.selected_request("delete")
    }

    /// Takes in how the store answered the delete of `name`, and its listing afterwards.
    pub fn delete_done(
        &mut self,
        name: String,
        outcome: Result<DeleteNamedPresetOutcome, String>,
        listing: Result<Vec<PresetMetadata>, String>,
    )
        ensures
            final(self)@ == after_delete(
                old(self)@,
                name@,
                result_view(outcome),
                listing_view(listing),
            ),
    {
        match outcome {
            Ok(DeleteNamedPresetOutcome::Deleted) => {
                let clear = match &self.pending_overwrite_name {
                    Some(p) => str_eq(p.as_str(), name.as_str()),
                    None => false,
                };
                if clear {
                    self.pending_overwrite_name = None;
                }
                self.preset_status_message = Some(message("Deleted preset '", name.as_str(), "'."));
                self.refresh_presets(listing);
                let previous = copy_opt(&self.selected_preset_name);
                self.reconcile_selected_preset(previous);
            },
            Ok(DeleteNamedPresetOutcome::NotFound) => {
                self.preset_status_message = Some(
                    message("Preset '", name.as_str(), "' no longer exists."),
                );
                self.refresh_presets(listing);
            },
            Err(e) => {
                self.preset_status_message = Some(
                    prefixed("Preset delete warning: ", e.as_str()),
                );
            },
        }
    }

    /// The transfer path for a library export or import, trimmed, if the action may go
    /// ahead; otherwise none, with a message saying why not.
    pub fn transfer_request(&mut self) -> (path: Option<String>)
        ensures
            old(self).started ==> path is None && final(self)@ == with_status(
                old(self)@,
                msg_actions_disabled(),
            ),
            !old(self).started && !old(self).storage_available ==> path is None && final(self)@
                == with_status(old(self)@, msg_storage_unavailable()),
            !old(self).started && old(self).storage_available && trim_ws(
                old(self)@.transfer_path_input,
            ).len() == 0 ==> path is None && final(self)@ == with_status(
                old(self)@,
                "Transfer path cannot be empty for library import/export."@,
            ),
            !old(self).started && old(self).storage_available && trim_ws(
                old(self)@.transfer_path_input,
            ).len() > 0 ==> opt_view(path) == Some(trim_ws(old(self)@.transfer_path_input))
                && final(self)@ == old(self)@,
    {
        if self.started {
            self.preset_status_message = Some(owned(
                "Preset actions are disabled while simulation is running.",
            ));
            return None;
        }
        if !self.storage_available {
            self.preset_status_message = Some(owned("Preset storage is unavailable."));
            return None;
        }
        if is_blank(self.preset_transfer_path_input.as_str()) {
            self.preset_status_message = Some(
                owned("Transfer path cannot be empty for library import/export."),
            );
            return None;
        }
        Some(trim_set(self.preset_transfer_path_input.as_str(), TrimSet::Whitespace))
    }

    /// Takes in how the export to `path` went.
    pub fn export_done(&mut self, path: &str, result: Result<(), String>)
        ensures
            final(self)@ == with_status(
                old(self)@,
                match result {
                    Ok(()) => "Exported preset library to '"@ + path@ + "'."@,
                    Err(e) => "Preset export warning: "@ + e@,
                },
            ),
    {
        match result {
            Ok(()) => {
                self.preset_status_message = Some(
                    message("Exported preset library to '", path, "'."),
                );
            },
            Err(e) => {
                self.preset_status_message = Some(
                    prefixed("Preset export warning: ", e.as_str()),
                );
            },
        }
    }

    /// Takes in how the import from `path` went, and the store's listing afterwards.
    pub fn import_done(
        &mut self,
        path: &str,
        result: Result<(), String>,
        listing: Result<Vec<PresetMetadata>, String>,
    )
        ensures
            final(self)@ == after_import(old(self)@, path@, result_view(result), listing_view(listing)),
    {
        match result {
            Ok(()) => {
                let previous = copy_opt(&self.selected_preset_name);
                self.pending_overwrite_name = None;
                self.refresh_presets(listing);
                self.reconcile_selected_preset(previous);
                self.preset_status_message = Some(
                    message("Imported preset library from '", path, "'."),
                );
            },
            Err(e) => {
                self.preset_status_message = Some(
                    prefixed("Preset import warning: ", e.as_str()),
                );
            },
        }
    }
}

proof fn lemma_first_active_push(m: Seq<(Seq<char>, bool)>, e: (Seq<char>, bool))
    ensures
        first_active(m.push(e)) == if first_active(m) is Some {
            first_active(m)
        } else if e.1 {
            Some(e.0)
        } else {
            None::<Seq<char>>
        },
    decreases m.len(),
{
    if m.len() == 0 {
        assert(m.push(e).drop_first() =~= Seq::<(Seq<char>, bool)>::empty());
    } else {
        assert(m.push(e).drop_first() =~= m.drop_first().push(e));
        lemma_first_active_push(m.drop_first(), e);
    }
}

} // verus!
