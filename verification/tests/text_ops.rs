//! The character-level helpers the metadata derivations are built on.

use godot_manager::fetcher::fetcher as legacy_fetcher;
use godot_manager::text::{
    find_sub, join_path, last_component, normalize_separators, parent_folder_name, remove_all,
    replace_char, str_contains,
};

#[test]
fn substring_search_finds_the_first_occurrence() {
    assert_eq!(find_sub("abcabc", "bc"), Some(1));
    assert_eq!(find_sub("abcabc", "zz"), None);
    assert!(str_contains("Godot_v4.2.1-stable_mono_win64.exe.zip", "_mono_"));
    assert!(!str_contains("Godot_v4.2.1-stable_win64.exe.zip", "_mono_"));
}

#[test]
fn empty_pattern_occurs_everywhere_and_removes_nothing() {
    assert_eq!(find_sub("abc", ""), Some(0));
    assert_eq!(find_sub("", ""), Some(0));
    assert!(str_contains("abc", ""));
    assert!(str_contains("", ""));
    assert_eq!(remove_all("abc", ""), "abc");
}

#[test]
fn separators_are_normalized_to_forward_slashes() {
    assert_eq!(normalize_separators("a\\b\\c"), "a/b/c");
    assert_eq!(normalize_separators("a/b"), "a/b");
    assert_eq!(replace_char("a b c", ' ', "_"), "a_b_c");
}

#[test]
fn paths_join_with_a_slash_unless_the_base_is_empty() {
    assert_eq!(join_path("base", "child"), "base/child");
    assert_eq!(join_path("", "child"), "child");
}

#[test]
fn path_components_are_read_off_the_separators() {
    assert_eq!(last_component("a/b/c"), "c");
    assert_eq!(last_component("plain"), "plain");
    assert_eq!(parent_folder_name("a/b/c"), "b");
    assert_eq!(parent_folder_name("b/c"), "b");
    assert_eq!(parent_folder_name("trk/projectA/project.godot"), "projectA");
}

#[test]
fn pattern_removal_scans_left_to_right_without_rescanning() {
    assert_eq!(remove_all("x.exe.zip", ".zip"), "x.exe");
    assert_eq!(remove_all("a.zipb.zipc", ".zip"), "abc");
    assert_eq!(remove_all("aaa", "aa"), "a");
    assert_eq!(remove_all("nothing", ".zip"), "nothing");
}

#[test]
fn fetcher_test_filter_assets() {
    let asset = |name: &str| legacy_fetcher::Asset {
        browser_download_url: String::new(),
        name: name.to_string(),
        created_at: String::new(),
        size: 0,
    };
    let releases = vec![
        legacy_fetcher::Release {
            assets: vec![asset("Godot_v4.2.1-stable_win64.exe.zip"), asset("other")],
        },
        legacy_fetcher::Release { assets: vec![asset("Godot_v4.1-stable_win64.exe.zip")] },
    ];

    let filtered = legacy_fetcher::filter_assets(&releases, "win64".to_string());

    for asset in &filtered {
        println!("{}", asset.name)
    }

    assert!(filtered.len() == 2)
}
