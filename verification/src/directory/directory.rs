//! An earlier cut of the project scanner, kept alongside the current one: it
//! records separator-normalized paths and uses the earlier record shape.

use vstd::prelude::*;

use crate::directory::project_data::{ProjectData, ProjectDataView};
use crate::project::project_data::path_names_parent;
use crate::scan::{lemma_scan_paths_name_parents, spec_scan, scan_paths, FsDir};
use crate::text::{
    spec_normalize_separators, spec_parent_folder_name, normalize_separators, parent_folder_name,
};

verus! {

/// The record this scanner yields for the marker file at `path`: both the
/// name and the recorded path are read off the separator-normalized path,
/// and every other field is defaulted.
pub open spec fn spec_directory_record(path: Seq<char>) -> ProjectDataView {
    ProjectDataView {
        project_name: spec_parent_folder_name(spec_normalize_separators(path)),
        project_path: spec_normalize_separators(path),
        project_version: Seq::empty(),
        last_date_opened: Seq::empty(),
        path_valid: false,
        engine_valid: false,
    }
}

/// Scans one tracked directory for projects, in the earlier record shape.
pub struct ProjectDirectory {
    pub base_path: String,
}

impl ProjectDirectory {
    /// A scanner rooted at `base_path`.
    pub fn new(base_path: &str) -> (r: ProjectDirectory)
        ensures
            r.base_path@ == base_path@,
    {
        ProjectDirectory { base_path: String::from_str(base_path) }
    }

    /// Builds the record for the marker file at `path`: the project is named
    /// after the folder holding the marker, and the path is recorded with
    /// normalized separators.
    pub fn create_project_data(path: String) -> (r: ProjectData)
        requires
            path_names_parent(path@),
        ensures
            r@ == spec_directory_record(path@),
    {
        let normalized = normalize_separators(path.as_str());
        let project_name = parent_folder_name(normalized.as_str());
        ProjectData {
            project_name,
            project_path: normalized,
            project_version: String::new(),
            last_date_opened: String::new(),
            path_valid: false,
            engine_valid: false,
        }
    }

    /// Scans the given picture of the tracked directory's tree: one default
    /// record per discovered project marker, in scan order. The caller hands
    /// in the tree it listed under this scanner's base path.
    pub fn find_projects(&self, root: &FsDir) -> (r: Vec<ProjectData>)
        requires
            root.wf(),
        ensures
            r.deep_view() == spec_scan(*root).map_values(
                |p: Seq<char>| spec_directory_record(p),
            ),
    {
        let paths = scan_paths(root);
        proof {
            lemma_scan_paths_name_parents(*root);
        }
        let ghost target = spec_scan(*root).map_values(|p: Seq<char>| spec_directory_record(p));
        let mut out: Vec<ProjectData> = Vec::new();
        let mut i: usize = 0;
        while i < paths.len()
            invariant
                paths.deep_view() == spec_scan(*root),
                target == spec_scan(*root).map_values(|p: Seq<char>| spec_directory_record(p)),
                forall|k: int|
                    0 <= k < paths@.len() ==> path_names_parent(#[trigger] paths.deep_view()[k]),
                0 <= i <= paths@.len(),
                out@.len() == i,
                forall|k: int| 0 <= k < i ==> out.deep_view()[k] == target[k],
            decreases paths@.len() - i,
        {
            proof {
                assert(path_names_parent(paths.deep_view()[i as int]));
            }
            let record = Self::create_project_data(paths[i].clone());
            out.push(record);
            i += 1;
        }
        proof {
            assert(out.deep_view() =~= target);
        }
        out
    }
}

} // verus!
