//! Scanning a directory tree for project markers, and the end-to-end path
//! from a scan to a reconciled project list.

use godot_manager::directory::directory::ProjectDirectory;
use godot_manager::project::project_data::{ProjectConfig, ProjectData};
use godot_manager::project::project_service::{
    project_reconciliation, ProjectDirectoryService,
};
use godot_manager::scan::{scan_paths, FsDir, FsEntry};
use godot_manager::session::get_all_projects_from_dirs;

fn file(path: &str) -> FsEntry {
    FsEntry { path: path.to_string(), dir: None }
}

fn dir(path: &str, entries: Vec<FsEntry>) -> FsEntry {
    FsEntry { path: path.to_string(), dir: Some(FsDir { entries }) }
}

/// A directory tree with three project folders, one of them without a
/// marker.
fn sample_tree() -> FsDir {
    FsDir {
        entries: vec![
            dir(
                "./test_data/projects/project1",
                vec![file("./test_data/projects/project1/project.godot")],
            ),
            dir(
                "./test_data/projects/project2",
                vec![file("./test_data/projects/project2/godot2.nope")],
            ),
            dir(
                "./test_data/projects/project3",
                vec![file("./test_data/projects/project3/project.godot")],
            ),
        ],
    }
}

#[test]
fn test_find_projects() {
    let path = "./test_data/projects/";
    println!("searching {}", &path);
    let project_directory = ProjectDirectoryService::new(path);

    let projects = project_directory.find_projects(&sample_tree());
    println!("Found {} projects", projects.len());
    for project in &projects {
        println!("{} - {}", project.project_name, project.project_path)
    }
    assert!(projects.len() == 2);
}

#[test]
fn directory_test_find_projects() {
    let path = "./test_data/projects/";
    println!("searching {}", &path);
    let project_directory = ProjectDirectory::new(path);

    let projects = project_directory.find_projects(&sample_tree());
    println!("Found {} projects", projects.len());
    for project in &projects {
        println!("{} - {}", project.project_name, project.project_path)
    }
    assert!(projects.len() == 2);
}

#[test]
fn scanned_records_are_named_after_the_marker_folder() {
    let projects = ProjectDirectoryService::new("./test_data/projects/")
        .find_projects(&sample_tree());
    assert_eq!(projects[0].project_name, "project1");
    assert_eq!(projects[0].project_path, "./test_data/projects/project1/project.godot");
    assert_eq!(projects[0].engine_version, "");
    assert_eq!(projects[0].last_date_opened, -1);
    assert!(!projects[0].path_valid);
    assert!(!projects[0].engine_valid);
    assert_eq!(projects[1].project_name, "project3");
}

#[test]
fn marker_stops_descent_into_the_branch() {
    // The root itself carries a marker, so its subdirectories are never
    // visited and exactly one record comes out.
    let tree = FsDir {
        entries: vec![
            file("root/project.godot"),
            dir("root/nested", vec![file("root/nested/project.godot")]),
        ],
    };
    let projects = ProjectDirectoryService::new("root").find_projects(&tree);
    assert_eq!(projects.len(), 1);
    assert_eq!(projects[0].project_path, "root/project.godot");
}

#[test]
fn dot_dot_entries_are_not_descended() {
    let tree = FsDir {
        entries: vec![dir("..", vec![file("../project.godot")])],
    };
    let paths = scan_paths(&tree);
    assert_eq!(paths.len(), 0);
}

#[test]
fn marker_name_must_match_exactly() {
    // A backup copy of the marker file is not a marker, and a folder whose
    // path merely contains the marker text is still descended.
    let tree = FsDir {
        entries: vec![
            dir(
                "trk/backup",
                vec![file("trk/backup/my_project.godot.bak")],
            ),
            dir(
                "trk/project.godot.old",
                vec![file("trk/project.godot.old/project.godot")],
            ),
        ],
    };
    let projects = ProjectDirectoryService::new("trk").find_projects(&tree);
    assert_eq!(projects.len(), 1);
    assert_eq!(projects[0].project_path, "trk/project.godot.old/project.godot");
    assert_eq!(projects[0].project_name, "project.godot.old");
}

#[test]
fn unreadable_tracked_directory_does_not_blank_the_others() {
    let config = ProjectConfig {
        tracked_directories: vec!["bad".to_string(), "good".to_string()],
        tracked_projects: vec![],
        tracked_godot_versions: vec![],
    };
    let good = FsDir {
        entries: vec![dir("good/projectC", vec![file("good/projectC/project.godot")])],
    };
    let scanned = get_all_projects_from_dirs(&config, &vec![None, Some(good)]);
    assert_eq!(scanned.len(), 1);
    assert_eq!(scanned[0].project_name, "projectC");
}

#[test]
fn scan_end_to_end_reconciliation() {
    // A tracked directory holds projectA and projectB; the persisted list
    // knows projectA with an engine that is not installed.
    let tree = FsDir {
        entries: vec![
            dir("trk/projectA", vec![file("trk/projectA/project.godot")]),
            dir("trk/projectB", vec![file("trk/projectB/project.godot")]),
        ],
    };
    let config = ProjectConfig {
        tracked_directories: vec!["trk".to_string()],
        tracked_projects: vec![ProjectData {
            project_name: "projectA".to_string(),
            project_path: "trk/projectA/project.godot".to_string(),
            engine_version: "v4.2".to_string(),
            last_date_opened: 5,
            path_valid: true,
            engine_valid: true,
        }],
        tracked_godot_versions: vec![],
    };

    let scanned = get_all_projects_from_dirs(&config, &vec![Some(tree)]);
    assert_eq!(scanned.len(), 2);

    let reconciled = project_reconciliation(config.tracked_projects, scanned, &vec![]);
    assert_eq!(reconciled.len(), 2);
    assert_eq!(reconciled[0].project_name, "projectA");
    assert_eq!(reconciled[0].engine_version, "v4.2");
    assert_eq!(reconciled[0].engine_valid, false, "engine is not installed");
    assert_eq!(reconciled[1].project_name, "projectB");
    assert_eq!(reconciled[1].engine_version, "");
}
