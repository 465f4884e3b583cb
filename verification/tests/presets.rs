use ridesim::presets::{
    check_loaded_library, library_for_save, validate_import, DeleteNamedPresetOutcome,
    NamedPreset, PresetLibrary, PresetStoreError, SaveNamedPresetOutcome, PRESET_FILE_VERSION,
};

#[derive(Debug, Clone, PartialEq)]
struct Scenario {
    num_riders: usize,
    num_drivers: usize,
}

fn defaults() -> Scenario {
    Scenario { num_riders: 500, num_drivers: 100 }
}

fn library(active: Option<&str>, names: &[&str]) -> PresetLibrary<Scenario> {
    PresetLibrary {
        version: PRESET_FILE_VERSION,
        active_preset: active.map(|a| a.to_string()),
        presets: names
            .iter()
            .map(|n| NamedPreset { name: n.to_string(), scenario: defaults() })
            .collect(),
    }
}

fn listed(lib: &PresetLibrary<Scenario>) -> Vec<(String, bool)> {
    lib.list_metadata().into_iter().map(|m| (m.name, m.is_active)).collect()
}

fn save_and_load_round_trip() {
    let mut lib = PresetLibrary::empty();
    let scenario = defaults();
    lib.save_autosave(scenario.clone());
    assert_eq!(lib.active_scenario(), Some(&scenario));
    assert_eq!(lib.active_preset.as_deref(), Some("autosave"));
}

fn save_named_preset_returns_conflict_without_overwrite() {
    let mut lib = PresetLibrary::empty();
    assert_eq!(lib.save_named("morning", defaults(), false), SaveNamedPresetOutcome::Saved);
    let before = lib.clone();
    assert_eq!(lib.save_named("morning", defaults(), false), SaveNamedPresetOutcome::Conflict);
    assert_eq!(lib, before);
}

fn overwrite_replaces_payload_and_sets_active_name() {
    let mut lib = PresetLibrary::empty();
    let first = defaults();
    let mut second = first.clone();
    second.num_riders = first.num_riders.saturating_add(99);
    assert_eq!(lib.save_named("weekday", first, false), SaveNamedPresetOutcome::Saved);
    assert_eq!(lib.save_named("weekday", second.clone(), true), SaveNamedPresetOutcome::Overwritten);
    let i = lib.select_named("weekday").expect("saved preset should exist");
    assert_eq!(lib.presets[i].scenario, second);
    assert_eq!(listed(&lib), vec![("weekday".to_string(), true)]);
}

fn delete_removes_named_preset_from_disk() {
    let mut lib = PresetLibrary::empty();
    lib.save_named("to-delete", defaults(), false);
    assert_eq!(lib.delete_named("to-delete"), DeleteNamedPresetOutcome::Deleted);
    assert!(lib.list_metadata().is_empty());
}

fn deleting_active_named_preset_clears_active_marker() {
    let mut lib = PresetLibrary::empty();
    lib.save_named("active", defaults(), false);
    assert_eq!(lib.delete_named("active"), DeleteNamedPresetOutcome::Deleted);
    assert!(lib.list_metadata().is_empty());
    assert!(lib.active_scenario().is_none());
}

fn import_with_unsupported_version_keeps_existing_library_unchanged() {
    let mut import = library(None, &[]);
    import.version = 99;
    match validate_import(import, "library.json") {
        Err(PresetStoreError::InvalidFormat(m)) => {
            assert_eq!(m, "unsupported import file version 99 in 'library.json'")
        }
        _ => panic!("version 99 must be refused"),
    }
}

fn import_valid_library_replaces_existing_library() {
    let mut imported_scenario = defaults();
    imported_scenario.num_drivers = imported_scenario.num_drivers.saturating_add(77);
    let import = PresetLibrary {
        version: PRESET_FILE_VERSION,
        active_preset: Some("imported".to_string()),
        presets: vec![NamedPreset { name: "imported".to_string(), scenario: imported_scenario.clone() }],
    };
    let accepted = validate_import(import, "library.json").expect("import should succeed");
    assert_eq!(listed(&accepted), vec![("imported".to_string(), true)]);
    assert_eq!(accepted.active_scenario(), Some(&imported_scenario));
}

fn strict_import_validation_rejects_invalid_payloads_without_mutating_store() {
    let cases = vec![
        ("trimmed_name", library(Some(" baseline "), &[" baseline "]), "preset names must not have surrounding whitespace in 'library.json'"),
        ("duplicate_name", library(Some("dup"), &["dup", "dup"]), "duplicate preset name 'dup' in 'library.json'"),
        ("missing_active_reference", library(Some("missing"), &["present"]), "active preset 'missing' not found in import file 'library.json'"),
        ("blank_name", library(None, &["  "]), "preset names must not be empty in 'library.json'"),
        ("blank_active", library(Some(" "), &["a"]), "active preset must not be empty in 'library.json'"),
        ("untrimmed_active", library(Some("a "), &["a"]), "active preset must not have surrounding whitespace in 'library.json'"),
    ];
    for (label, lib, expected) in cases {
        match validate_import(lib, "library.json") {
            Err(PresetStoreError::InvalidFormat(m)) => assert_eq!(m, expected, "case '{label}'"),
            _ => panic!("case '{label}' should reject invalid import"),
        }
    }
}

#[test]
fn presets_save_and_load_round_trip() {
    save_and_load_round_trip();
}

#[test]
fn tests_save_and_load_round_trip() {
    save_and_load_round_trip();
}

#[test]
fn presets_save_named_preset_returns_conflict_without_overwrite() {
    save_named_preset_returns_conflict_without_overwrite();
}

#[test]
fn tests_save_named_preset_returns_conflict_without_overwrite() {
    save_named_preset_returns_conflict_without_overwrite();
}

#[test]
fn presets_overwrite_replaces_payload_and_sets_active_name() {
    overwrite_replaces_payload_and_sets_active_name();
}

#[test]
fn tests_overwrite_replaces_payload_and_sets_active_name() {
    overwrite_replaces_payload_and_sets_active_name();
}

#[test]
fn presets_delete_removes_named_preset_from_disk() {
    delete_removes_named_preset_from_disk();
}

#[test]
fn tests_delete_removes_named_preset_from_disk() {
    delete_removes_named_preset_from_disk();
}

#[test]
fn presets_deleting_active_named_preset_clears_active_marker() {
    deleting_active_named_preset_clears_active_marker();
}

#[test]
fn tests_deleting_active_named_preset_clears_active_marker() {
    deleting_active_named_preset_clears_active_marker();
}

#[test]
fn presets_import_with_unsupported_version_keeps_existing_library_unchanged() {
    import_with_unsupported_version_keeps_existing_library_unchanged();
}

#[test]
fn tests_import_with_unsupported_version_keeps_existing_library_unchanged() {
    import_with_unsupported_version_keeps_existing_library_unchanged();
}

#[test]
fn presets_import_valid_library_replaces_existing_library() {
    import_valid_library_replaces_existing_library();
}

#[test]
fn tests_import_valid_library_replaces_existing_library() {
    import_valid_library_replaces_existing_library();
}

#[test]
fn presets_strict_import_validation_rejects_invalid_payloads_without_mutating_store() {
    strict_import_validation_rejects_invalid_payloads_without_mutating_store();
}

#[test]
fn tests_strict_import_validation_rejects_invalid_payloads_without_mutating_store() {
    strict_import_validation_rejects_invalid_payloads_without_mutating_store();
}

#[test]
fn export_import_round_trip_preserves_library_and_active_marker() {
    let mut source = PresetLibrary::empty();
    let mut morning = defaults();
    morning.num_riders += 10;
    let mut evening = defaults();
    evening.num_drivers += 20;
    source.save_named("morning", morning.clone(), false);
    source.save_named("evening", evening.clone(), false);
    source.select_named("evening").expect("evening preset should exist");
    let imported = validate_import(source.clone(), "library.json").expect("import should succeed");
    assert_eq!(listed(&imported), vec![("evening".to_string(), true), ("morning".to_string(), false)]);
    assert_eq!(imported.active_scenario(), Some(&evening));
    let i = imported.find_named("morning").expect("morning preset should exist");
    assert_eq!(imported.presets[i].scenario, morning);
}

#[test]
fn metadata_is_sorted_by_name_and_marks_the_active_preset() {
    let lib = library(Some("b"), &["c", "a", "b", "B"]);
    assert_eq!(
        listed(&lib),
        vec![
            ("B".to_string(), false),
            ("a".to_string(), false),
            ("b".to_string(), true),
            ("c".to_string(), false),
        ]
    );
}

#[test]
fn a_broken_store_file_is_replaced_on_save_but_io_errors_stop_it() {
    let broken: Result<PresetLibrary<Scenario>, PresetStoreError> =
        Err(PresetStoreError::InvalidFormat("bad".to_string()));
    let lib = library_for_save(broken).expect("invalid file starts an empty library");
    assert!(lib.presets.is_empty());
    let io: Result<PresetLibrary<Scenario>, PresetStoreError> = Err(PresetStoreError::Io("denied".to_string()));
    assert_eq!(library_for_save(io).unwrap_err(), PresetStoreError::Io("denied".to_string()));
    let mut v2 = library(None, &[]);
    v2.version = 2;
    assert_eq!(
        check_loaded_library(v2, "sim_ui_presets.json").unwrap_err().message(),
        "unsupported preset file version 2 in 'sim_ui_presets.json'"
    );
}

#[test]
fn deleting_an_unknown_name_changes_nothing() {
    let mut lib = library(Some("a"), &["a", "b"]);
    let before = lib.clone();
    assert_eq!(lib.delete_named("zzz"), DeleteNamedPresetOutcome::NotFound);
    assert_eq!(lib, before);
    assert_eq!(lib.delete_named("b"), DeleteNamedPresetOutcome::Deleted);
    assert_eq!(lib.active_preset.as_deref(), Some("a"));
}
