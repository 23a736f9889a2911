//! The configuration store's compute side: where the configuration file and
//! the engine storage live under a base directory, and the whole-document
//! edits that are persisted by read-modify-write. Reading and writing the
//! file itself is left to the surrounding application.

use vstd::prelude::*;

use crate::godot_service::godot_engine_version::GodotEngineVersion;
use crate::project::project_data::{ProjectConfig, ProjectData};
use crate::text::{spec_join_path, join_path};

verus! {

/// The folder under the storage root that installed engines live in.
pub open spec fn spec_engines_folder() -> Seq<char> {
    "engines"@
}

/// Knows where the configuration file and the engine storage live.
pub struct ConfigDirectoryService {
    pub config_file_name: String,
    pub storage_path: String,
    pub engine_storage_path: String,
    pub config_file_path: String,
}

impl ConfigDirectoryService {
    /// A store rooted at an explicitly given base path.
    pub fn new_test(base_path: String, config_file_name: String) -> (r: ConfigDirectoryService)
        ensures
            r.config_file_name@ == config_file_name@,
            r.storage_path@ == base_path@,
            r.engine_storage_path@ == spec_join_path(base_path@, spec_engines_folder()),
            r.config_file_path@ == spec_join_path(base_path@, config_file_name@),
    {
        let engine_storage_path = Self::get_engine_dir_path(base_path.clone());
        let config_file_path = Self::get_config_file_path(
            base_path.clone(),
            config_file_name.clone(),
        );
        ConfigDirectoryService {
            config_file_name,
            storage_path: base_path,
            engine_storage_path,
            config_file_path,
        }
    }

    /// The folder installed engines are stored under.
    pub fn get_engine_dir_path(storage_path: String) -> (r: String)
        ensures
            r@ == spec_join_path(storage_path@, spec_engines_folder()),
    {
        join_path(storage_path.as_str(), "engines")
    }

    /// Where the configuration file lives under the storage root.
    pub fn get_config_file_path(storage_path: String, config_file_name: String) -> (r: String)
        ensures
            r@ == spec_join_path(storage_path@, config_file_name@),
    {
        join_path(storage_path.as_str(), config_file_name.as_str())
    }

    /// The storage root.
    pub fn storage_path(&self) -> (r: &String)
        ensures
            r == &self.storage_path,
    {
        &self.storage_path
    }

    /// The folder installed engines are stored under.
    pub fn engine_storage_path(&self) -> (r: &String)
        ensures
            r == &self.engine_storage_path,
    {
        &self.engine_storage_path
    }

    /// Where the configuration file lives.
    pub fn config_file_path(&self) -> (r: &String)
        ensures
            r == &self.config_file_path,
    {
        &self.config_file_path
    }

    /// Where the named engine version installs under the engine storage.
    pub fn engine_version_path(&self, engine_version_name: &str) -> (r: String)
        ensures
            r@ == spec_join_path(self.engine_storage_path@, engine_version_name@),
    {
        join_path(self.engine_storage_path.as_str(), engine_version_name)
    }
}

fn clone_string_vec(values: &Vec<String>) -> (r: Vec<String>)
    ensures
        r.deep_view() == values.deep_view(),
{
    let mut out: Vec<String> = Vec::new();
    let mut i: usize = 0;
    while i < values.len()
        invariant
            0 <= i <= values@.len(),
            out@.len() == i,
            forall|k: int| 0 <= k < i ==> out.deep_view()[k] == values.deep_view()[k],
        decreases values@.len() - i,
    {
        out.push(values[i].clone());
        i += 1;
    }
    proof {
        assert(out.deep_view() =~= values.deep_view());
    }
    out
}

fn clone_project_vec(values: &Vec<ProjectData>) -> (r: Vec<ProjectData>)
    ensures
        r.deep_view() == values.deep_view(),
{
    let mut out: Vec<ProjectData> = Vec::new();
    let mut i: usize = 0;
    while i < values.len()
        invariant
            0 <= i <= values@.len(),
            out@.len() == i,
            forall|k: int| 0 <= k < i ==> out.deep_view()[k] == values.deep_view()[k],
        decreases values@.len() - i,
    {
        out.push(values[i].clone());
        i += 1;
    }
    proof {
        assert(out.deep_view() =~= values.deep_view());
    }
    out
}

fn clone_version_vec(values: &Vec<GodotEngineVersion>) -> (r: Vec<GodotEngineVersion>)
    ensures
        r.deep_view() == values.deep_view(),
{
    let mut out: Vec<GodotEngineVersion> = Vec::new();
    let mut i: usize = 0;
    while i < values.len()
        invariant
            0 <= i <= values@.len(),
            out@.len() == i,
            forall|k: int| 0 <= k < i ==> out.deep_view()[k] == values.deep_view()[k],
        decreases values@.len() - i,
    {
        out.push(values[i].clone());
        i += 1;
    }
    proof {
        assert(out.deep_view() =~= values.deep_view());
    }
    out
}

/// Replaces the document's tracked-project list with `projects`; the tracked
/// directories and engine versions on record stay. The caller persists the
/// whole document afterwards.
pub fn save_projects_to_config(config: &mut ProjectConfig, projects: &Vec<ProjectData>)
    ensures
        final(config)@.tracked_projects == projects.deep_view(),
        final(config)@.tracked_directories == old(config)@.tracked_directories,
        final(config)@.tracked_godot_versions == old(config)@.tracked_godot_versions,
{
    config.tracked_projects = clone_project_vec(projects);
}

/// Replaces the document's engine-version list with `engine_versions`; the
/// tracked directories and projects on record stay. The caller persists the
/// whole document afterwards.
pub fn save_engine_versions_to_config(
    config: &mut ProjectConfig,
    engine_versions: &Vec<GodotEngineVersion>,
)
    ensures
        final(config)@.tracked_godot_versions == engine_versions.deep_view(),
        final(config)@.tracked_directories == old(config)@.tracked_directories,
        final(config)@.tracked_projects == old(config)@.tracked_projects,
{
    config.tracked_godot_versions = clone_version_vec(engine_versions);
}

/// Replaces the document's tracked-directory list with `directories`; the
/// projects and engine versions on record stay. The caller persists the
/// whole document afterwards.
pub fn save_tracked_directories_to_config(config: &mut ProjectConfig, directories: &Vec<String>)
    ensures
        final(config)@.tracked_directories == directories.deep_view(),
        final(config)@.tracked_projects == old(config)@.tracked_projects,
        final(config)@.tracked_godot_versions == old(config)@.tracked_godot_versions,
{
    config.tracked_directories = clone_string_vec(directories);
}

} // verus!
