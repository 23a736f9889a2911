//! The project record and the persisted configuration document.

use vstd::prelude::*;

use crate::godot_service::godot_engine_version::{GodotEngineVersion, GodotEngineVersionView};
use crate::text::{
    spec_last_index_of, spec_normalize_separators, spec_parent_folder_name, normalize_separators,
    parent_folder_name,
};

verus! {

/// One tracked project: where it lives, which engine it opens with, and the
/// validity flags recomputed at every reconciliation.
pub struct ProjectData {
    pub project_name: String,
    pub project_path: String,
    pub engine_version: String,
    pub last_date_opened: i64,
    pub path_valid: bool,
    pub engine_valid: bool,
}

/// Mathematical model of a [`ProjectData`].
pub struct ProjectDataView {
    pub project_name: Seq<char>,
    pub project_path: Seq<char>,
    pub engine_version: Seq<char>,
    pub last_date_opened: int,
    pub path_valid: bool,
    pub engine_valid: bool,
}

impl View for ProjectData {
    type V = ProjectDataView;

    open spec fn view(&self) -> ProjectDataView {
        ProjectDataView {
            project_name: self.project_name@,
            project_path: self.project_path@,
            engine_version: self.engine_version@,
            last_date_opened: self.last_date_opened as int,
            path_valid: self.path_valid,
            engine_valid: self.engine_valid,
        }
    }
}

impl DeepView for ProjectData {
    type V = ProjectDataView;

    open spec fn deep_view(&self) -> ProjectDataView {
        self.view()
    }
}

impl Clone for ProjectData {
    fn clone(&self) -> (r: Self)
        ensures
            r == *self,
    {
        ProjectData {
            project_name: self.project_name.clone(),
            project_path: self.project_path.clone(),
            engine_version: self.engine_version.clone(),
            last_date_opened: self.last_date_opened,
            path_valid: self.path_valid,
            engine_valid: self.engine_valid,
        }
    }
}

/// The name a scanned project gets: the folder containing the path's final
/// component, read off the separator-normalized path.
pub open spec fn spec_scanned_project_name(path: Seq<char>) -> Seq<char> {
    spec_parent_folder_name(spec_normalize_separators(path))
}

/// A path from which a project name can be read: once separators are
/// normalized it contains at least one.
pub open spec fn path_names_parent(path: Seq<char>) -> bool {
    spec_last_index_of(spec_normalize_separators(path), '/') >= 0
}

impl ProjectData {
    /// Builds a project record for the marker file at `project_path`, naming
    /// the project after the folder that holds the marker.
    pub fn new(
        project_path: String,
        engine_version: String,
        last_date_opened: i64,
        path_valid: bool,
        engine_valid: bool,
    ) -> (r: ProjectData)
        requires
            path_names_parent(project_path@),
        ensures
            r@.project_name == spec_scanned_project_name(project_path@),
            r@.project_path == project_path@,
            r@.engine_version == engine_version@,
            r@.last_date_opened == last_date_opened as int,
            r@.path_valid == path_valid,
            r@.engine_valid == engine_valid,
    {
        let normalized = normalize_separators(project_path.as_str());
        let project_name = parent_folder_name(normalized.as_str());
        ProjectData {
            project_name,
            project_path,
            engine_version,
            last_date_opened,
            path_valid,
            engine_valid,
        }
    }
}

/// The persisted configuration document: the directories the user tracks,
/// the projects discovered in them, and the engine versions on record.
pub struct ProjectConfig {
    pub tracked_directories: Vec<String>,
    pub tracked_projects: Vec<ProjectData>,
    pub tracked_godot_versions: Vec<GodotEngineVersion>,
}

/// Mathematical model of a [`ProjectConfig`].
pub struct ProjectConfigView {
    pub tracked_directories: Seq<Seq<char>>,
    pub tracked_projects: Seq<ProjectDataView>,
    pub tracked_godot_versions: Seq<GodotEngineVersionView>,
}

impl View for ProjectConfig {
    type V = ProjectConfigView;

    open spec fn view(&self) -> ProjectConfigView {
        ProjectConfigView {
            tracked_directories: self.tracked_directories.deep_view(),
            tracked_projects: self.tracked_projects.deep_view(),
            tracked_godot_versions: self.tracked_godot_versions.deep_view(),
        }
    }
}

impl DeepView for ProjectConfig {
    type V = ProjectConfigView;

    open spec fn deep_view(&self) -> ProjectConfigView {
        self.view()
    }
}

} // verus!
