//! The configuration store's path derivations, the document edits, and the
//! session operations around the configuration.

use godot_manager::directory::config_directory_service::{
    save_engine_versions_to_config, save_projects_to_config, save_tracked_directories_to_config,
    ConfigDirectoryService,
};
use godot_manager::environmnet::{get_environment, is_dev, is_prod, is_test};
use godot_manager::godot_service::godot_engine_version::GodotEngineVersion;
use godot_manager::project::project_data::{ProjectConfig, ProjectData};
use godot_manager::session::{
    add_tracked_directory, mark_project_opened, remove_tracked_directory,
    set_engine_version_for_project, Data,
};

fn engine(version_name: &str, path: &str) -> GodotEngineVersion {
    GodotEngineVersion {
        version_name: version_name.to_string(),
        version_number: String::new(),
        updated_at: String::new(),
        path: path.to_string(),
        download_url: String::new(),
        executable_path: String::new(),
        console_executable_path: String::new(),
    }
}

fn record(name: &str, engine_version: &str) -> ProjectData {
    ProjectData {
        project_name: name.to_string(),
        project_path: format!("trk/{}/project.godot", name),
        engine_version: engine_version.to_string(),
        last_date_opened: -1,
        path_valid: false,
        engine_valid: false,
    }
}

fn empty_config() -> ProjectConfig {
    ProjectConfig {
        tracked_directories: vec![],
        tracked_projects: vec![],
        tracked_godot_versions: vec![],
    }
}

#[test]
fn config_paths_hang_off_the_storage_root() {
    let service = ConfigDirectoryService::new_test(
        "base".to_string(),
        "config.json".to_string(),
    );
    assert_eq!(service.storage_path().as_str(), "base");
    assert_eq!(service.engine_storage_path().as_str(), "base/engines");
    assert_eq!(service.config_file_path().as_str(), "base/config.json");
    assert_eq!(service.engine_version_path("Godot_v4.2.1"), "base/engines/Godot_v4.2.1");
}

#[test]
fn document_edits_replace_one_list_and_keep_the_rest() {
    let mut config = empty_config();
    save_tracked_directories_to_config(
        &mut config,
        &vec!["a".to_string(), "b".to_string()],
    );
    assert_eq!(config.tracked_directories, vec!["a".to_string(), "b".to_string()]);
    assert_eq!(config.tracked_projects.len(), 0);

    save_projects_to_config(&mut config, &vec![record("p", "")]);
    assert_eq!(config.tracked_projects.len(), 1);
    assert_eq!(config.tracked_projects[0].project_name, "p");
    assert_eq!(config.tracked_directories.len(), 2);

    save_engine_versions_to_config(&mut config, &vec![engine("v4.2", "")]);
    assert_eq!(config.tracked_godot_versions.len(), 1);
    assert_eq!(config.tracked_godot_versions[0].version_name, "v4.2");
    assert_eq!(config.tracked_projects.len(), 1);
    assert_eq!(config.tracked_directories.len(), 2);
}

#[test]
fn tracked_directories_are_added_and_removed() {
    let mut config = empty_config();
    add_tracked_directory(&mut config, "one".to_string());
    add_tracked_directory(&mut config, "two".to_string());
    add_tracked_directory(&mut config, "one".to_string());
    assert_eq!(config.tracked_directories.len(), 3);

    remove_tracked_directory(&mut config, &"one".to_string());
    assert_eq!(config.tracked_directories, vec!["two".to_string()]);
}

#[test]
fn engine_assignment_updates_the_named_project() {
    let mut config = empty_config();
    config.tracked_projects = vec![record("a", ""), record("b", "")];
    let versions = vec![engine("v4.2", "engines/v4.2")];

    set_engine_version_for_project(
        &mut config,
        &versions,
        &"b".to_string(),
        &"v4.2".to_string(),
    );
    assert_eq!(config.tracked_projects[0].engine_version, "");
    assert_eq!(config.tracked_projects[1].engine_version, "v4.2");
    assert!(config.tracked_projects[1].engine_valid);

    // Naming an engine that is not installed clears the assignment.
    set_engine_version_for_project(
        &mut config,
        &versions,
        &"b".to_string(),
        &"v9.9".to_string(),
    );
    assert_eq!(config.tracked_projects[1].engine_version, "");
    assert!(!config.tracked_projects[1].engine_valid);
}

#[test]
fn opening_a_project_stamps_it_and_returns_its_engine() {
    let mut data = Data {
        all_godot_engine_versions: vec![],
        installed_godot_engine_versions: vec![engine("v4.2", "engines/v4.2")],
        projects: vec![record("a", "v4.2"), record("b", "")],
    };

    let opened = mark_project_opened(&mut data, &"a".to_string(), 1_700_000_123);
    let (project, launched) = opened.unwrap();
    assert_eq!(project.project_name, "a");
    assert_eq!(project.last_date_opened, -1, "the handed-back record predates the stamp");
    assert_eq!(launched.version_name, "v4.2");
    assert_eq!(data.projects[0].last_date_opened, 1_700_000_123);

    // A project without an installed engine is not opened and not stamped.
    assert!(mark_project_opened(&mut data, &"b".to_string(), 7).is_none());
    assert_eq!(data.projects[1].last_date_opened, -1);
    // An unknown project changes nothing.
    assert!(mark_project_opened(&mut data, &"zz".to_string(), 7).is_none());
}

#[test]
fn environment_is_decided_by_the_setting_value() {
    assert!(is_dev(&get_environment("dev")));
    assert!(is_test(&get_environment("test")));
    assert!(is_prod(&get_environment("prod")));
    assert!(is_dev(&get_environment("")), "unset means development");
    assert!(is_dev(&get_environment("staging")), "unknown means development");
    assert!(!is_test(&get_environment("prod")));
    assert!(!is_prod(&get_environment("dev")));
}
