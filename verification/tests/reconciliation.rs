//! Reconciliation behavior: merging scanned projects with persisted records
//! and recomputing validity flags.

use godot_manager::directory::project_data::ProjectData as DirProjectData;
use godot_manager::godot_service::godot_engine_version::GodotEngineVersion;
use godot_manager::project::project_data::ProjectData;
use godot_manager::project::project_service::{
    project_reconciliation, validate_godot_versions, validate_project_paths,
};
use godot_manager::service::project_service as legacy;

fn engine(version_name: &str, path: &str) -> GodotEngineVersion {
    GodotEngineVersion {
        version_name: version_name.to_string(),
        version_number: String::new(),
        updated_at: String::new(),
        path: path.to_string(),
        download_url: String::new(),
        executable_path: String::new(),
        console_executable_path: String::new(),
    }
}

fn record(
    name: &str,
    path: &str,
    engine_version: &str,
    last_date_opened: i64,
    path_valid: bool,
    engine_valid: bool,
) -> ProjectData {
    ProjectData {
        project_name: name.to_string(),
        project_path: path.to_string(),
        engine_version: engine_version.to_string(),
        last_date_opened,
        path_valid,
        engine_valid,
    }
}

#[test]
fn project_service_test_project_reconciliation() {
    let existing = vec![DirProjectData {
        project_name: "test".to_string(),
        project_path: "test".to_string(),
        project_version: "V1".to_string(),
        last_date_opened: "".to_string(),
        path_valid: true,
        engine_valid: false,
    }];

    let found = vec![
        DirProjectData {
            project_name: "test".to_string(),
            project_path: "test".to_string(),
            project_version: "".to_string(),
            last_date_opened: "".to_string(),
            path_valid: true,
            engine_valid: false,
        },
        DirProjectData {
            project_name: "test2".to_string(),
            project_path: "test2".to_string(),
            project_version: "".to_string(),
            last_date_opened: "".to_string(),
            path_valid: true,
            engine_valid: false,
        },
    ];

    let godot_projects = vec![GodotEngineVersion {
        version_name: "godot 1".to_string(),
        version_number: "1".to_string(),
        path: "".to_string(),
        updated_at: "".to_string(),
        download_url: "".to_string(),
        executable_path: "".to_string(),
        console_executable_path: "".to_string(),
    }];

    let reconciled = legacy::project_reconciliation(existing, found, godot_projects);

    assert!(reconciled.len() == 2);
    assert!(reconciled.first().unwrap().project_version == "V1");
    assert!(reconciled.first().unwrap().path_valid == false);
    assert!(reconciled.first().unwrap().engine_valid == false);
}

#[test]
fn test_project_reconciliation() {
    let existing = vec![record("test", "test", "V1", 1_700_000_000, true, false)];

    let found = vec![
        record("test", "test", "", 1_700_000_000, true, false),
        record("test2", "test2", "", 1_700_000_000, true, false),
    ];

    let godot_projects = vec![engine("godot 1", "")];

    let reconciled = project_reconciliation(existing, found, &godot_projects);

    assert!(reconciled.len() == 2);
    assert!(reconciled.first().unwrap().engine_version == "V1");
    assert!(reconciled.first().unwrap().path_valid == false);
    assert!(reconciled.first().unwrap().engine_valid == false);
}

#[test]
fn reconciliation_carries_persisted_fields_onto_scanned_records() {
    let existing = vec![
        record("alpha", "old/alpha/project.godot", "v4.2", 42, true, true),
        record("vanished", "old/vanished/project.godot", "v3.5", 7, true, true),
    ];
    let found = vec![
        record("alpha", "new/alpha/project.godot", "", -1, false, false),
        record("beta", "new/beta/project.godot", "", -1, false, false),
    ];
    let versions: Vec<GodotEngineVersion> = vec![];

    let out = project_reconciliation(existing, found, &versions);

    assert_eq!(out.len(), 2);
    assert_eq!(out[0].project_name, "alpha");
    assert_eq!(out[0].project_path, "new/alpha/project.godot");
    assert_eq!(out[0].engine_version, "v4.2");
    assert_eq!(out[0].last_date_opened, 42);
    assert_eq!(out[1].project_name, "beta");
    assert_eq!(out[1].engine_version, "");
    assert_eq!(out[1].last_date_opened, -1);
    for p in &out {
        assert_ne!(p.project_name, "vanished");
    }
}

#[test]
fn reconciliation_takes_last_record_when_names_repeat() {
    let existing = vec![
        record("alpha", "a", "v1", 1, false, false),
        record("alpha", "a", "v2", 2, false, false),
    ];
    let found = vec![record("alpha", "a/alpha/project.godot", "", -1, false, false)];
    let versions: Vec<GodotEngineVersion> = vec![];

    let out = project_reconciliation(existing, found, &versions);

    assert_eq!(out.len(), 1);
    assert_eq!(out[0].engine_version, "v2");
    assert_eq!(out[0].last_date_opened, 2);
}

#[test]
fn path_validity_is_recomputed_never_copied() {
    // A record marked valid whose path does not exist flips to invalid, and
    // one marked invalid whose path exists flips to valid.
    let mut projects = vec![
        record("gone", "no_such_dir_qqq/project.godot", "", -1, true, false),
        record("here", ".", "", -1, false, false),
    ];
    validate_project_paths(&mut projects);
    assert_eq!(projects[0].path_valid, false);
    assert_eq!(projects[1].path_valid, true);
}

#[test]
fn engine_validity_requires_name_listing_and_live_path() {
    let versions = vec![
        engine("v4.2", "."),
        engine("v9.9", "no_such_dir_qqq"),
        engine("empty", ""),
    ];
    let mut projects = vec![
        record("a", "x/a", "", -1, false, true),
        record("b", "x/b", "v4.2", -1, false, false),
        record("c", "x/c", "v9.9", -1, false, true),
        record("d", "x/d", "unknown", -1, false, true),
        record("e", "x/e", "empty", -1, false, true),
    ];
    validate_godot_versions(&mut projects, &versions);
    assert_eq!(projects[0].engine_valid, false, "empty engine name");
    assert_eq!(projects[1].engine_valid, true, "listed engine with live path");
    assert_eq!(projects[2].engine_valid, false, "listed engine, dead path");
    assert_eq!(projects[3].engine_valid, false, "engine not listed");
    assert_eq!(projects[4].engine_valid, false, "listed engine, empty path");
}

#[test]
fn legacy_engine_check_consumes_versions_left_to_right() {
    // The earlier pass advances a cursor over the version list, so a second
    // project asking for an earlier version no longer finds it.
    let versions = vec![engine("v1", "."), engine("v2", ".")];
    let mut projects = vec![
        DirProjectData {
            project_name: "first".to_string(),
            project_path: "x/first".to_string(),
            project_version: "v2".to_string(),
            last_date_opened: "".to_string(),
            path_valid: false,
            engine_valid: false,
        },
        DirProjectData {
            project_name: "second".to_string(),
            project_path: "x/second".to_string(),
            project_version: "v1".to_string(),
            last_date_opened: "".to_string(),
            path_valid: false,
            engine_valid: false,
        },
    ];
    legacy::validate_godot_versions(&mut projects, versions);
    assert_eq!(projects[0].engine_valid, true);
    assert_eq!(projects[1].engine_valid, false);
}
