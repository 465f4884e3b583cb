use ridesim::preset_panel::PresetPanel;
use ridesim::presets::{
    DeleteNamedPresetOutcome, PresetLibrary, PresetMetadata, SaveNamedPresetOutcome,
};

const DISABLED: &str = "Preset actions are disabled while simulation is running.";

fn panel() -> PresetPanel {
    PresetPanel {
        started: false,
        storage_available: true,
        preset_name_input: String::new(),
        preset_transfer_path_input: String::new(),
        pending_overwrite_name: None,
        selected_preset_name: None,
        active_preset_name: None,
        preset_names: Vec::new(),
        preset_status_message: None,
        preset_save_error: None,
        preset_load_error: None,
    }
}

fn listing(lib: &PresetLibrary<u32>) -> Result<Vec<PresetMetadata>, String> {
    Ok(lib.list_metadata())
}

fn status(p: &PresetPanel) -> &str {
    p.preset_status_message.as_deref().unwrap_or("")
}

#[test]
fn blank_names_are_not_saved() {
    let mut p = panel();
    p.preset_name_input = "   ".to_string();
    assert_eq!(p.save_named_request(), None);
    assert_eq!(status(&p), "Preset name cannot be empty.");
}

#[test]
fn a_duplicate_save_asks_for_confirmation_before_overwriting() {
    let mut lib: PresetLibrary<u32> = PresetLibrary::empty();
    let mut p = panel();
    p.preset_name_input = " weekday ".to_string();
    let name = p.save_named_request().unwrap();
    assert_eq!(name, "weekday");
    let outcome = lib.save_named(&name, 100, false);
    p.save_named_done(name, Ok(outcome), listing(&lib));
    assert_eq!(status(&p), "Saved preset 'weekday'.");
    assert_eq!(p.preset_names, vec!["weekday".to_string()]);
    assert_eq!(p.selected_preset_name.as_deref(), Some("weekday"));
    assert_eq!(p.active_preset_name.as_deref(), Some("weekday"));

    let name = p.save_named_request().unwrap();
    let outcome = lib.save_named(&name, 250, false);
    assert_eq!(outcome, SaveNamedPresetOutcome::Conflict);
    p.save_named_done(name, Ok(outcome), listing(&lib));
    assert_eq!(p.pending_overwrite_name.as_deref(), Some("weekday"));
    assert_eq!(
        status(&p),
        "Preset 'weekday' already exists. Confirm overwrite to replace it."
    );
    assert_eq!(lib.presets[0].scenario, 100);

    let name = p.confirm_overwrite_request().unwrap();
    let outcome = lib.save_named(&name, 250, true);
    p.confirm_overwrite_done(name, Ok(outcome), listing(&lib));
    assert_eq!(p.pending_overwrite_name, None);
    assert_eq!(status(&p), "Overwrote preset 'weekday'.");
    assert_eq!(lib.presets[0].scenario, 250);
}

#[test]
fn cancelling_drops_the_pending_overwrite() {
    let mut p = panel();
    p.pending_overwrite_name = Some("weekday".to_string());
    p.cancel_overwrite_named_preset();
    assert_eq!(p.pending_overwrite_name, None);
    assert_eq!(status(&p), "Overwrite canceled.");
    assert_eq!(p.confirm_overwrite_request(), None);
}

#[test]
fn preset_actions_are_refused_while_a_simulation_runs() {
    let mut p = panel();
    p.started = true;
    p.preset_name_input = "guarded".to_string();
    p.selected_preset_name = Some("guarded".to_string());
    p.preset_transfer_path_input = "transfer.json".to_string();
    assert!(!p.can_mutate_presets());
    assert_eq!(p.save_named_request(), None);
    assert_eq!(status(&p), DISABLED);
    p.preset_status_message = None;
    assert_eq!(p.delete_request(), None);
    assert_eq!(status(&p), DISABLED);
    p.preset_status_message = None;
    assert_eq!(p.load_request(), None);
    assert_eq!(status(&p), DISABLED);
    p.preset_status_message = None;
    assert_eq!(p.transfer_request(), None);
    assert_eq!(status(&p), DISABLED);
    assert!(!p.autosave_request());
    assert_eq!(
        p.preset_save_error.as_deref(),
        Some("Preset mutating actions are disabled while simulation is running.")
    );
    assert_eq!(p.selected_preset_name.as_deref(), Some("guarded"));

    p.started = false;
    assert!(p.can_mutate_presets());
    assert!(p.autosave_request());
    p.autosave_done(Ok(()));
    assert_eq!(p.preset_save_error, None);
}

#[test]
fn loading_and_deleting_need_a_selection() {
    let mut p = panel();
    assert_eq!(p.load_request(), None);
    assert_eq!(status(&p), "Select a preset to load.");
    assert_eq!(p.delete_request(), None);
    assert_eq!(status(&p), "Select a preset to delete.");
}

#[test]
fn loading_a_preset_selects_it_and_fills_the_name() {
    let mut lib: PresetLibrary<u32> = PresetLibrary::empty();
    lib.save_named("load_test", 321, false);
    let mut p = panel();
    p.selected_preset_name = Some("load_test".to_string());
    let name = p.load_request().unwrap();
    let found = lib.select_named(&name).is_some();
    p.load_done(name, Ok(found), listing(&lib));
    assert_eq!(status(&p), "Loaded preset 'load_test'.");
    assert_eq!(p.preset_name_input, "load_test");
    assert!(!p.started);

    p.selected_preset_name = Some("gone".to_string());
    let name = p.load_request().unwrap();
    p.load_done(name, Ok(false), listing(&lib));
    assert_eq!(status(&p), "Preset 'gone' no longer exists.");
}

#[test]
fn deleting_the_selected_active_preset_moves_the_selection() {
    let mut lib: PresetLibrary<u32> = PresetLibrary::empty();
    lib.save_named("alpha", 1, false);
    lib.save_named("beta", 2, false);
    let mut p = panel();
    p.refresh_presets(listing(&lib));
    assert_eq!(p.active_preset_name.as_deref(), Some("beta"));
    p.selected_preset_name = Some("beta".to_string());
    let name = p.delete_request().unwrap();
    let outcome = lib.delete_named(&name);
    assert_eq!(outcome, DeleteNamedPresetOutcome::Deleted);
    p.delete_done(name, Ok(outcome), listing(&lib));
    assert_eq!(status(&p), "Deleted preset 'beta'.");
    assert_eq!(p.preset_names, vec!["alpha".to_string()]);
    assert_eq!(p.active_preset_name, None);
    assert_eq!(p.selected_preset_name.as_deref(), Some("alpha"));
}

#[test]
fn store_errors_become_warnings() {
    let mut p = panel();
    p.pending_overwrite_name = Some("x".to_string());
    p.save_named_done("x".to_string(), Err("disk full".to_string()), Ok(vec![]));
    assert_eq!(status(&p), "Preset save warning: disk full");
    assert_eq!(p.pending_overwrite_name, None);
    p.delete_done("x".to_string(), Err("locked".to_string()), Ok(vec![]));
    assert_eq!(status(&p), "Preset delete warning: locked");
    p.refresh_presets(Err("unreadable".to_string()));
    assert_eq!(p.preset_load_error.as_deref(), Some("Preset load warning: unreadable"));
    p.autosave_done(Err("disk full".to_string()));
    assert_eq!(p.preset_save_error.as_deref(), Some("Preset save warning: disk full"));
}

#[test]
fn transfers_need_a_path_and_report_where_they_went() {
    let mut p = panel();
    p.preset_transfer_path_input = "  ".to_string();
    assert_eq!(p.transfer_request(), None);
    assert_eq!(status(&p), "Transfer path cannot be empty for library import/export.");
    p.preset_transfer_path_input = " /tmp/library.json ".to_string();
    let path = p.transfer_request().unwrap();
    assert_eq!(path, "/tmp/library.json");
    p.export_done(&path, Ok(()));
    assert_eq!(status(&p), "Exported preset library to '/tmp/library.json'.");
    p.export_done(&path, Err("denied".to_string()));
    assert_eq!(status(&p), "Preset export warning: denied");
}

#[test]
fn an_import_keeps_a_selection_that_survives_and_replaces_a_stale_one() {
    let mut imported: PresetLibrary<u32> = PresetLibrary::empty();
    imported.save_named("baseline", 1, false);
    imported.save_named("imported", 2, false);
    let mut p = panel();
    p.selected_preset_name = Some("stale".to_string());
    p.pending_overwrite_name = Some("stale".to_string());
    p.import_done("library.json", Ok(()), listing(&imported));
    assert_eq!(p.selected_preset_name.as_deref(), Some("imported"));
    assert_eq!(p.pending_overwrite_name, None);
    assert_eq!(status(&p), "Imported preset library from 'library.json'.");

    p.selected_preset_name = Some("baseline".to_string());
    p.import_done("library.json", Ok(()), listing(&imported));
    assert_eq!(p.selected_preset_name.as_deref(), Some("baseline"));

    p.import_done("library.json", Err("bad version".to_string()), listing(&imported));
    assert_eq!(status(&p), "Preset import warning: bad version");
}

#[test]
fn without_a_store_nothing_is_listed() {
    let mut p = panel();
    p.storage_available = false;
    p.preset_names = vec!["old".to_string()];
    p.active_preset_name = Some("old".to_string());
    p.refresh_presets(Ok(vec![PresetMetadata { name: "x".to_string(), is_active: true }]));
    assert!(p.preset_names.is_empty());
    assert_eq!(p.active_preset_name, None);
    p.preset_name_input = "name".to_string();
    assert_eq!(p.save_named_request(), None);
    assert_eq!(status(&p), "Preset storage is unavailable.");
}

#[test]
fn can_mutate_presets_tracks_started_state() {
    let mut p = panel();
    p.started = false;
    assert!(p.can_mutate_presets());

    p.started = true;
    assert!(!p.can_mutate_presets());
}
