//! An earlier cut of the project record and configuration document, kept
//! alongside the current ones: its version field names differ and its
//! timestamp is textual.

use vstd::prelude::*;

verus! {

/// One tracked project in the earlier shape: the engine association lives in
/// `project_version` and the open history is textual.
pub struct ProjectData {
    pub project_name: String,
    pub project_path: String,
    pub project_version: String,
    pub last_date_opened: String,
    pub path_valid: bool,
    pub engine_valid: bool,
}

/// Mathematical model of a [`ProjectData`].
pub struct ProjectDataView {
    pub project_name: Seq<char>,
    pub project_path: Seq<char>,
    pub project_version: Seq<char>,
    pub last_date_opened: Seq<char>,
    pub path_valid: bool,
    pub engine_valid: bool,
}

impl View for ProjectData {
    type V = ProjectDataView;

    open spec fn view(&self) -> ProjectDataView {
        ProjectDataView {
            project_name: self.project_name@,
            project_path: self.project_path@,
            project_version: self.project_version@,
            last_date_opened: self.last_date_opened@,
            path_valid: self.path_valid,
            engine_valid: self.engine_valid,
        }
    }
}

impl DeepView for ProjectData {
    type V = ProjectDataView;

    open spec fn deep_view(&self) -> ProjectDataView {
        self.view()
    }
}

impl Clone for ProjectData {
    fn clone(&self) -> (r: Self)
        ensures
            r == *self,
    {
        ProjectData {
            project_name: self.project_name.clone(),
            project_path: self.project_path.clone(),
            project_version: self.project_version.clone(),
            last_date_opened: self.last_date_opened.clone(),
            path_valid: self.path_valid,
            engine_valid: self.engine_valid,
        }
    }
}

/// The configuration document in the earlier shape: the engine versions on
/// record were kept as project records.
pub struct ProjectConfig {
    pub tracked_directories: Vec<String>,
    pub tracked_projects: Vec<ProjectData>,
    pub tracked_godot_versions: Vec<ProjectData>,
}

/// Mathematical model of a [`ProjectConfig`].
pub struct ProjectConfigView {
    pub tracked_directories: Seq<Seq<char>>,
    pub tracked_projects: Seq<ProjectDataView>,
    pub tracked_godot_versions: Seq<ProjectDataView>,
}

impl View for ProjectConfig {
    type V = ProjectConfigView;

    open spec fn view(&self) -> ProjectConfigView {
        ProjectConfigView {
            tracked_directories: self.tracked_directories.deep_view(),
            tracked_projects: self.tracked_projects.deep_view(),
            tracked_godot_versions: self.tracked_godot_versions.deep_view(),
        }
    }
}

impl DeepView for ProjectConfig {
    type V = ProjectConfigView;

    open spec fn deep_view(&self) -> ProjectConfigView {
        self.view()
    }
}

} // verus!
