use xgr_pbxproj::settings::insert_project_setting_presets;
use xgr_pbxproj::graph::{value_eq, PbxValue};
use xgr_pbxproj::sources::{directory_entry_shown, directory_group_entries, path_is_under_group};

#[test]
fn hidden_entries_projects_carthage_and_orig_files_are_left_out() {
    assert!(!directory_entry_shown(".git"));
    assert!(directory_entry_shown(".swiftlint.yml"));
    assert!(!directory_entry_shown("Carthage"));
    assert!(!directory_entry_shown("Demo.xcodeproj"));
    assert!(!directory_entry_shown("file.swift.orig"));
    assert!(directory_entry_shown("Sources"));
    assert!(directory_entry_shown("orig"));
}

#[test]
fn directory_entries_come_in_natural_order() {
    let names: Vec<String> = ["b", ".git", "Carthage", "a10", "a2", "X.xcodeproj", "f.orig", ".swiftlint.yml"]
        .iter()
        .map(|s| s.to_string())
        .collect();
    let shown = directory_group_entries(&names);
    assert_eq!(shown, vec![".swiftlint.yml", "a2", "a10", "b"]);
}

fn setting(settings: &[(String, PbxValue)], key: &str) -> Option<String> {
    match settings.iter().find(|(k, _)| k == key).map(|(_, v)| v) {
        Some(PbxValue::String(s)) => Some(s.clone()),
        _ => None,
    }
}

fn given() -> Vec<(String, PbxValue)> {
    vec![("ALWAYS_SEARCH_USER_PATHS".to_owned(), PbxValue::String("YES".to_owned()))]
}

#[test]
fn presets_keep_given_settings_and_a_second_fill_changes_nothing() {
    let mut once = given();
    insert_project_setting_presets(&mut once, "Debug");
    assert_eq!(setting(&once, "ALWAYS_SEARCH_USER_PATHS"), Some("YES".to_owned()));
    assert_eq!(setting(&once, "CLANG_ENABLE_MODULES"), Some("YES".to_owned()));
    let mut twice = given();
    insert_project_setting_presets(&mut twice, "Debug");
    insert_project_setting_presets(&mut twice, "Debug");
    assert_eq!(once.len(), twice.len());
    for ((k1, v1), (k2, v2)) in once.iter().zip(twice.iter()) {
        assert_eq!(k1, k2);
        assert!(value_eq(v1, v2));
    }
}

#[test]
fn paths_under_a_file_group() {
    assert!(path_is_under_group("Sources", "Sources"));
    assert!(path_is_under_group("Sources/App", "Sources"));
    assert!(path_is_under_group("Sources/App", "Sources//"));
    assert!(!path_is_under_group("SourcesX/App", "Sources"));
    assert!(!path_is_under_group("Source", "Sources"));
    assert!(!path_is_under_group("Sources", "Sources/App"));
}
