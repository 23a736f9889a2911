//! The reconciliation engine: scanning a directory tree for projects, merging
//! the scan with the previously persisted project list, and recomputing the
//! two validity flags from the live filesystem.

use vstd::prelude::*;

use crate::godot_service::godot_engine_version::{GodotEngineVersion, GodotEngineVersionView};
use crate::project::project_data::{
    path_names_parent, spec_scanned_project_name, ProjectData, ProjectDataView,
};
use crate::scan::{lemma_scan_paths_name_parents, spec_scan, FsDir};
use crate::scan::{path_exists, scan_paths};

verus! {

/// Some record of `projects` carries the name `name`.
pub open spec fn spec_has_name(projects: Seq<ProjectDataView>, name: Seq<char>) -> bool {
    exists|i: int| 0 <= i < projects.len() && projects[i].project_name == name
}

/// The last record of `projects` carrying the name `name`; the lookup a map
/// built from `projects` in order would answer.
pub open spec fn spec_last_with_name(projects: Seq<ProjectDataView>, name: Seq<char>) -> ProjectDataView
    decreases projects.len(),
{
    if projects.len() == 0 {
        arbitrary()
    } else if projects.last().project_name == name {
        projects.last()
    } else {
        spec_last_with_name(projects.drop_last(), name)
    }
}

pub proof fn lemma_last_with_name_found(projects: Seq<ProjectDataView>, name: Seq<char>, j: int)
    requires
        0 <= j < projects.len(),
        projects[j].project_name == name,
        forall|k: int| j < k < projects.len() ==> projects[k].project_name != name,
    ensures
        spec_last_with_name(projects, name) == projects[j],
    decreases projects.len(),
{
    if j == projects.len() - 1 {
    } else {
        assert(projects.drop_last() =~= projects.subrange(0, projects.len() - 1));
        lemma_last_with_name_found(projects.drop_last(), name, j);
    }
}

/// One scanned record after the merge: when the persisted list knows the
/// name, the persisted engine assignment and open history are carried onto
/// the fresh record; everything else (name, path, flags) stays freshly
/// scanned.
pub open spec fn spec_merge_record(
    existing: Seq<ProjectDataView>,
    found: ProjectDataView,
) -> ProjectDataView {
    if spec_has_name(existing, found.project_name) {
        let carried = spec_last_with_name(existing, found.project_name);
        ProjectDataView {
            engine_version: carried.engine_version,
            last_date_opened: carried.last_date_opened,
            ..found
        }
    } else {
        found
    }
}

/// The merged project list: one record per freshly scanned project, in scan
/// order, each carrying the persisted engine assignment and open history when
/// the persisted list knows its name. Records only the persisted list knows
/// are dropped.
pub open spec fn spec_merge(
    existing: Seq<ProjectDataView>,
    found: Seq<ProjectDataView>,
) -> Seq<ProjectDataView> {
    found.map_values(|p: ProjectDataView| spec_merge_record(existing, p))
}

/// Index of the last record of `projects` named `name`, if any.
fn find_last_with_name(projects: &Vec<ProjectData>, name: &String) -> (r: Option<usize>)
    ensures
        match r {
            Some(j) => {
                &&& 0 <= j < projects@.len()
                &&& projects.deep_view()[j as int] == spec_last_with_name(
                    projects.deep_view(),
                    name@,
                )
                &&& projects@[j as int]@.project_name == name@
                &&& spec_has_name(projects.deep_view(), name@)
            },
            None => !spec_has_name(projects.deep_view(), name@),
        },
{
    let n = projects.len();
    let mut i: usize = n;
    while i > 0
        invariant
            n == projects@.len(),
            0 <= i <= n,
            forall|k: int| i <= k < n ==> projects.deep_view()[k].project_name != name@,
        decreases i,
    {
        i -= 1;
        if projects[i].project_name.eq(name) {
            proof {
                lemma_last_with_name_found(projects.deep_view(), name@, i as int);
            }
            return Some(i);
        }
    }
    None
}

/// Every project list with each record's `path_valid` flag replaced by the
/// matching verdict of `path_ok`, all other fields untouched.
pub open spec fn spec_apply_path_validity(
    projects: Seq<ProjectDataView>,
    path_ok: Seq<bool>,
) -> Seq<ProjectDataView> {
    projects.map(|i: int, p: ProjectDataView| ProjectDataView { path_valid: path_ok[i], ..p })
}

/// Overwrites each record's `path_valid` flag with the matching verdict of
/// `path_ok`, regardless of what the flag held before. No other field is
/// touched.
pub fn apply_path_validity(projects: &mut Vec<ProjectData>, path_ok: &Vec<bool>)
    requires
        old(projects)@.len() == path_ok@.len(),
    ensures
        final(projects).deep_view() == spec_apply_path_validity(
            old(projects).deep_view(),
            path_ok@,
        ),
{
    let n = projects.len();
    let mut i: usize = 0;
    while i < n
        invariant
            n == projects@.len() == old(projects)@.len() == path_ok@.len(),
            0 <= i <= n,
            forall|k: int|
                0 <= k < i ==> projects.deep_view()[k] == spec_apply_path_validity(
                    old(projects).deep_view(),
                    path_ok@,
                )[k],
            forall|k: int| i <= k < n ==> projects@[k] == old(projects)@[k],
        decreases n - i,
    {
        let ghost prev = projects.deep_view();
        let mut updated = projects[i].clone();
        updated.path_valid = path_ok[i];
        projects.set(i, updated);
        i += 1;
        proof {
            let m = spec_apply_path_validity(old(projects).deep_view(), path_ok@);
            assert(projects.deep_view()[i - 1] == m[i - 1]);
            assert forall|k: int| 0 <= k < i - 1 implies projects.deep_view()[k] == m[k] by {
                assert(projects.deep_view()[k] == prev[k]);
            }
        }
    }
    proof {
        assert(projects.deep_view() =~= spec_apply_path_validity(
            old(projects).deep_view(),
            path_ok@,
        ));
    }
}

/// Index of the first version of `versions` whose name is `name`, or the
/// number of versions when none matches.
pub open spec fn spec_first_version_index(
    versions: Seq<GodotEngineVersionView>,
    name: Seq<char>,
    i: int,
) -> int
    decreases versions.len() - i,
{
    if i < 0 || i >= versions.len() {
        versions.len() as int
    } else if versions[i].version_name == name {
        i
    } else {
        spec_first_version_index(versions, name, i + 1)
    }
}

pub proof fn lemma_first_version_index(
    versions: Seq<GodotEngineVersionView>,
    name: Seq<char>,
    a: int,
    i: int,
)
    requires
        0 <= a <= i <= versions.len(),
        forall|k: int| a <= k < i ==> versions[k].version_name != name,
        i == versions.len() || versions[i].version_name == name,
    ensures
        spec_first_version_index(versions, name, a) == i,
    decreases i - a,
{
    if a < i {
        lemma_first_version_index(versions, name, a + 1, i);
    }
}

/// Index of the first version named `name`, if any.
pub fn find_version_index(versions: &Vec<GodotEngineVersion>, name: &String) -> (r: Option<usize>)
    ensures
        match r {
            Some(i) => {
                &&& 0 <= i < versions@.len()
                &&& i == spec_first_version_index(versions.deep_view(), name@, 0)
            },
            None => spec_first_version_index(versions.deep_view(), name@, 0)
                == versions@.len() as int,
        },
{
    let n = versions.len();
    let mut i: usize = 0;
    while i < n
        invariant
            n == versions@.len(),
            0 <= i <= n,
            forall|k: int| 0 <= k < i ==> versions.deep_view()[k].version_name != name@,
        decreases n - i,
    {
        if versions[i].version_name.eq(name) {
            proof {
                lemma_first_version_index(versions.deep_view(), name@, 0, i as int);
            }
            return Some(i);
        }
        i += 1;
    }
    proof {
        lemma_first_version_index(versions.deep_view(), name@, 0, n as int);
    }
    None
}

/// The engine-validity verdict for one record: its engine name is nonempty,
/// some installed version carries that name, and the verdict of `version_ok`
/// for the first such version is positive.
pub open spec fn spec_engine_validity(
    engine_version: Seq<char>,
    versions: Seq<GodotEngineVersionView>,
    version_ok: Seq<bool>,
) -> bool {
    let idx = spec_first_version_index(versions, engine_version, 0);
    &&& engine_version.len() > 0
    &&& idx < versions.len()
    &&& version_ok[idx]
}

/// Every project list with each record's `engine_valid` flag replaced by its
/// verdict against `versions` and `version_ok`, all other fields untouched.
pub open spec fn spec_apply_engine_validity(
    projects: Seq<ProjectDataView>,
    versions: Seq<GodotEngineVersionView>,
    version_ok: Seq<bool>,
) -> Seq<ProjectDataView> {
    projects.map(
        |i: int, p: ProjectDataView|
            ProjectDataView {
                engine_valid: spec_engine_validity(p.engine_version, versions, version_ok),
                ..p
            },
    )
}

/// Overwrites each record's `engine_valid` flag: it becomes true exactly when
/// the record names a nonempty engine version, some version of
/// `godot_versions` carries that name, and `version_ok` answers true for the
/// first such version. No other field is touched, and the flag's old value is
/// never consulted.
pub fn apply_engine_validity(
    projects: &mut Vec<ProjectData>,
    godot_versions: &Vec<GodotEngineVersion>,
    version_ok: &Vec<bool>,
)
    requires
        godot_versions@.len() == version_ok@.len(),
    ensures
        final(projects).deep_view() == spec_apply_engine_validity(
            old(projects).deep_view(),
            godot_versions.deep_view(),
            version_ok@,
        ),
{
    let n = projects.len();
    let mut i: usize = 0;
    while i < n
        invariant
            n == projects@.len() == old(projects)@.len(),
            godot_versions@.len() == version_ok@.len(),
            0 <= i <= n,
            forall|k: int|
                0 <= k < i ==> projects.deep_view()[k] == spec_apply_engine_validity(
                    old(projects).deep_view(),
                    godot_versions.deep_view(),
                    version_ok@,
                )[k],
            forall|k: int| i <= k < n ==> projects@[k] == old(projects)@[k],
        decreases n - i,
    {
        let ghost prev = projects.deep_view();
        let mut updated = projects[i].clone();
        let verdict = if updated.engine_version.as_str().unicode_len() == 0 {
            false
        } else {
            match find_version_index(godot_versions, &updated.engine_version) {
                Some(idx) => version_ok[idx],
                None => false,
            }
        };
        updated.engine_valid = verdict;
        projects.set(i, updated);
        i += 1;
        proof {
            let m = spec_apply_engine_validity(
                old(projects).deep_view(),
                godot_versions.deep_view(),
                version_ok@,
            );
            assert(projects.deep_view()[i - 1] == m[i - 1]);
            assert forall|k: int| 0 <= k < i - 1 implies projects.deep_view()[k] == m[k] by {
                assert(projects.deep_view()[k] == prev[k]);
            }
        }
    }
    proof {
        assert(projects.deep_view() =~= spec_apply_engine_validity(
            old(projects).deep_view(),
            godot_versions.deep_view(),
            version_ok@,
        ));
    }
}

/// Recomputes every record's `path_valid` flag from the live filesystem. The
/// flags' previous values are never consulted; every other field is kept.
pub fn validate_project_paths(projects: &mut Vec<ProjectData>)
    ensures
        exists|path_ok: Seq<bool>|
            path_ok.len() == old(projects)@.len() && final(projects).deep_view()
                == spec_apply_path_validity(old(projects).deep_view(), path_ok),
{
    let n = projects.len();
    let mut path_ok: Vec<bool> = Vec::new();
    let mut i: usize = 0;
    while i < n
        invariant
            n == projects@.len(),
            0 <= i <= n,
            path_ok@.len() == i,
        decreases n - i,
    {
        let verdict = path_exists(&projects[i].project_path);
        path_ok.push(verdict);
        i += 1;
    }
    apply_path_validity(projects, &path_ok);
}

/// Recomputes every record's `engine_valid` flag: true exactly when the
/// record names a nonempty engine version, `godot_versions` carries that
/// name, and the first such version's install path is nonempty and exists on
/// the live filesystem. The flags' previous values are never consulted; every
/// other field is kept.
pub fn validate_godot_versions(
    projects: &mut Vec<ProjectData>,
    godot_versions: &Vec<GodotEngineVersion>,
)
    ensures
        exists|version_ok: Seq<bool>|
            version_ok.len() == godot_versions@.len() && final(projects).deep_view()
                == spec_apply_engine_validity(
                old(projects).deep_view(),
                godot_versions.deep_view(),
                version_ok,
            ) && (forall|k: int|
                0 <= k < version_ok.len() && godot_versions.deep_view()[k].path.len() == 0
                    ==> !version_ok[k]),
{
    let n = godot_versions.len();
    let mut version_ok: Vec<bool> = Vec::new();
    let mut i: usize = 0;
    while i < n
        invariant
            n == godot_versions@.len(),
            0 <= i <= n,
            version_ok@.len() == i,
            forall|k: int|
                0 <= k < i && godot_versions.deep_view()[k].path.len() == 0
                    ==> !version_ok@[k],
        decreases n - i,
    {
        let version = &godot_versions[i];
        let verdict = if version.path.as_str().unicode_len() == 0 {
            false
        } else {
            path_exists(&version.path)
        };
        version_ok.push(verdict);
        i += 1;
    }
    apply_engine_validity(projects, godot_versions, &version_ok);
}

/// Merges the persisted project list into the freshly scanned one and
/// recomputes both validity flags: the result holds one record per scanned
/// project, in scan order, with the persisted engine assignment and open
/// history carried onto records whose name the persisted list knows, a
/// `path_valid` flag answering only for the live filesystem, and an
/// `engine_valid` flag answering only for `all_godot_versions` and the live
/// filesystem. Projects only the persisted list knows are dropped.
pub fn project_reconciliation(
    existing_projects: Vec<ProjectData>,
    found_projects: Vec<ProjectData>,
    all_godot_versions: &Vec<GodotEngineVersion>,
) -> (r: Vec<ProjectData>)
    ensures
        exists|path_ok: Seq<bool>, version_ok: Seq<bool>|
            {
                &&& path_ok.len() == found_projects@.len()
                &&& version_ok.len() == all_godot_versions@.len()
                &&& (forall|k: int|
                    0 <= k < version_ok.len() && all_godot_versions.deep_view()[k].path.len() == 0
                        ==> !version_ok[k])
                &&& r.deep_view() == #[trigger] spec_apply_engine_validity(
                    spec_apply_path_validity(
                        spec_merge(existing_projects.deep_view(), found_projects.deep_view()),
                        path_ok,
                    ),
                    all_godot_versions.deep_view(),
                    version_ok,
                )
            },
{
    let ghost existing_view = existing_projects.deep_view();
    let ghost found_view = found_projects.deep_view();
    let mut reconciled_projects = found_projects;
    let n = reconciled_projects.len();
    let mut i: usize = 0;
    while i < n
        invariant
            n == reconciled_projects@.len(),
            found_view.len() == n,
            existing_view == existing_projects.deep_view(),
            0 <= i <= n,
            forall|k: int|
                0 <= k < i ==> reconciled_projects.deep_view()[k] == spec_merge(
                    existing_view,
                    found_view,
                )[k],
            forall|k: int| i <= k < n ==> reconciled_projects.deep_view()[k] == found_view[k],
        decreases n - i,
    {
        let ghost prev = reconciled_projects.deep_view();
        let name = reconciled_projects[i].project_name.clone();
        match find_last_with_name(&existing_projects, &name) {
            Some(j) => {
                let mut updated = reconciled_projects[i].clone();
                updated.engine_version = existing_projects[j].engine_version.clone();
                updated.last_date_opened = existing_projects[j].last_date_opened;
                reconciled_projects.set(i, updated);
            },
            None => {},
        }
        i += 1;
        proof {
            let m = spec_merge(existing_view, found_view);
            assert(reconciled_projects.deep_view()[i - 1] == m[i - 1]);
            assert forall|k: int|
                0 <= k < i - 1 implies reconciled_projects.deep_view()[k] == m[k] by {
                assert(reconciled_projects.deep_view()[k] == prev[k]);
            }
            assert forall|k: int|
                i <= k < n implies reconciled_projects.deep_view()[k] == found_view[k] by {
                assert(reconciled_projects.deep_view()[k] == prev[k]);
            }
        }
    }
    proof {
        assert(reconciled_projects.deep_view() =~= spec_merge(existing_view, found_view));
    }
    validate_project_paths(&mut reconciled_projects);
    validate_godot_versions(&mut reconciled_projects, all_godot_versions);
    reconciled_projects
}

/// The reconciliation pipeline on models: the merge of the persisted list
/// into the fresh scan, with both validity flags rewritten from the given
/// filesystem verdicts.
pub open spec fn spec_reconcile(
    existing: Seq<ProjectDataView>,
    found: Seq<ProjectDataView>,
    versions: Seq<GodotEngineVersionView>,
    path_ok: Seq<bool>,
    version_ok: Seq<bool>,
) -> Seq<ProjectDataView> {
    spec_apply_engine_validity(
        spec_apply_path_validity(spec_merge(existing, found), path_ok),
        versions,
        version_ok,
    )
}

/// Law: every record of the reconciliation output corresponds to the scanned
/// record at its position. It keeps the scanned name and path; it carries the
/// persisted engine assignment and open history exactly when the persisted
/// list knows the name, and the scanned defaults otherwise; its path-validity
/// flag is the fresh filesystem verdict for its position, whatever the inputs
/// held; and its engine-validity flag answers only for the engine name it
/// carries, the installed list and the installed list's filesystem verdicts.
pub proof fn lemma_reconciliation_record(
    existing: Seq<ProjectDataView>,
    found: Seq<ProjectDataView>,
    versions: Seq<GodotEngineVersionView>,
    path_ok: Seq<bool>,
    version_ok: Seq<bool>,
    i: int,
)
    requires
        path_ok.len() == found.len(),
        version_ok.len() == versions.len(),
        0 <= i < found.len(),
    ensures
        ({
            let out = spec_reconcile(existing, found, versions, path_ok, version_ok);
            &&& out.len() == found.len()
            &&& out[i].project_name == found[i].project_name
            &&& out[i].project_path == found[i].project_path
            &&& (spec_has_name(existing, found[i].project_name) ==> {
                &&& out[i].engine_version == spec_last_with_name(
                    existing,
                    found[i].project_name,
                ).engine_version
                &&& out[i].last_date_opened == spec_last_with_name(
                    existing,
                    found[i].project_name,
                ).last_date_opened
            })
            &&& (!spec_has_name(existing, found[i].project_name) ==> {
                &&& out[i].engine_version == found[i].engine_version
                &&& out[i].last_date_opened == found[i].last_date_opened
            })
            &&& out[i].path_valid == path_ok[i]
            &&& out[i].engine_valid == spec_engine_validity(
                out[i].engine_version,
                versions,
                version_ok,
            )
        }),
{
    assert(spec_merge(existing, found)[i] == spec_merge_record(existing, found[i]));
}

/// Law: when the scanned names are pairwise distinct, a name appears at most
/// once in the reconciliation output: only at the position where the scan
/// found it.
pub proof fn lemma_reconciliation_name_unique(
    existing: Seq<ProjectDataView>,
    found: Seq<ProjectDataView>,
    versions: Seq<GodotEngineVersionView>,
    path_ok: Seq<bool>,
    version_ok: Seq<bool>,
    i: int,
)
    requires
        path_ok.len() == found.len(),
        version_ok.len() == versions.len(),
        0 <= i < found.len(),
        forall|a: int, b: int|
            0 <= a < b < found.len() ==> found[a].project_name != found[b].project_name,
    ensures
        forall|j: int|
            0 <= j < found.len() && j != i
                ==> #[trigger] spec_reconcile(existing, found, versions, path_ok, version_ok)[j].project_name
                != found[i].project_name,
{
    assert forall|j: int|
        0 <= j < found.len() && j != i implies #[trigger] spec_reconcile(
        existing,
        found,
        versions,
        path_ok,
        version_ok,
    )[j].project_name != found[i].project_name by {
        lemma_reconciliation_record(existing, found, versions, path_ok, version_ok, j);
        if j < i {
            assert(found[j].project_name != found[i].project_name);
        } else {
            assert(found[i].project_name != found[j].project_name);
        }
    }
}

/// Law: a name the fresh scan does not carry appears nowhere in the
/// reconciliation output — a project that vanished from the scan is dropped,
/// whatever the persisted list knows of it.
pub proof fn lemma_reconciliation_drops_vanished(
    existing: Seq<ProjectDataView>,
    found: Seq<ProjectDataView>,
    versions: Seq<GodotEngineVersionView>,
    path_ok: Seq<bool>,
    version_ok: Seq<bool>,
    name: Seq<char>,
)
    requires
        path_ok.len() == found.len(),
        version_ok.len() == versions.len(),
        !spec_has_name(found, name),
    ensures
        forall|j: int|
            0 <= j < spec_reconcile(existing, found, versions, path_ok, version_ok).len()
                ==> #[trigger] spec_reconcile(existing, found, versions, path_ok, version_ok)[j].project_name
                != name,
{
    assert forall|j: int|
        0 <= j < spec_reconcile(existing, found, versions, path_ok, version_ok).len()
            implies #[trigger] spec_reconcile(
        existing,
        found,
        versions,
        path_ok,
        version_ok,
    )[j].project_name != name by {
        lemma_reconciliation_record(existing, found, versions, path_ok, version_ok, j);
        assert(found[j].project_name != name);
    }
}

/// Law: a record with an empty engine name is never engine-valid, and a
/// record whose first matching installed version got a negative filesystem
/// verdict (in particular, one with an empty install path) is never
/// engine-valid — however the flags came in.
pub proof fn lemma_engine_validity_limits(
    projects: Seq<ProjectDataView>,
    versions: Seq<GodotEngineVersionView>,
    version_ok: Seq<bool>,
    i: int,
)
    requires
        0 <= i < projects.len(),
    ensures
        ({
            let out = spec_apply_engine_validity(projects, versions, version_ok);
            let idx = spec_first_version_index(versions, projects[i].engine_version, 0);
            &&& out.len() == projects.len()
            &&& (projects[i].engine_version.len() == 0 ==> !out[i].engine_valid)
            &&& (idx == versions.len() ==> !out[i].engine_valid)
            &&& (0 <= idx < versions.len() && !version_ok[idx] ==> !out[i].engine_valid)
        }),
{
}

/// Does nothing when the project path does not exist; the engine launch
/// itself is outside this library.
pub fn open_project(project_path: String) {
    if !path_exists(&project_path) {
        return;
    }
}

/// The record a scan yields for the marker file at `path`: named after the
/// marker's parent folder, unassociated with any engine, never opened, both
/// validity flags down.
pub open spec fn spec_scanned_record(path: Seq<char>) -> ProjectDataView {
    ProjectDataView {
        project_name: spec_scanned_project_name(path),
        project_path: path,
        engine_version: Seq::empty(),
        last_date_opened: -1,
        path_valid: false,
        engine_valid: false,
    }
}

/// Scans one tracked directory for projects.
pub struct ProjectDirectoryService {
    pub base_path: String,
}

impl ProjectDirectoryService {
    /// A scanner rooted at `base_path`.
    pub fn new(base_path: &str) -> (r: ProjectDirectoryService)
        ensures
            r.base_path@ == base_path@,
    {
        ProjectDirectoryService { base_path: String::from_str(base_path) }
    }

    /// Scans the given picture of the tracked directory's tree: one default
    /// record per discovered project marker, in scan order. The caller hands
    /// in the tree it listed under this service's base path.
    pub fn find_projects(&self, root: &FsDir) -> (r: Vec<ProjectData>)
        requires
            root.wf(),
        ensures
            r.deep_view() == spec_scan(*root).map_values(
                |p: Seq<char>| spec_scanned_record(p),
            ),
    {
        let paths = scan_paths(root);
        proof {
            lemma_scan_paths_name_parents(*root);
        }
        let ghost target = spec_scan(*root).map_values(|p: Seq<char>| spec_scanned_record(p));
        let mut out: Vec<ProjectData> = Vec::new();
        let mut i: usize = 0;
        while i < paths.len()
            invariant
                paths.deep_view() == spec_scan(*root),
                target == spec_scan(*root).map_values(|p: Seq<char>| spec_scanned_record(p)),
                forall|k: int|
                    0 <= k < paths@.len() ==> path_names_parent(#[trigger] paths.deep_view()[k]),
                0 <= i <= paths@.len(),
                out@.len() == i,
                forall|k: int| 0 <= k < i ==> out.deep_view()[k] == target[k],
            decreases paths@.len() - i,
        {
            proof {
                assert(path_names_parent(paths.deep_view()[i as int]));
            }
            let record = ProjectData::new(
                paths[i].clone(),
                String::new(),
                -1,
                false,
                false,
            );
            out.push(record);
            i += 1;
        }
        proof {
            assert(out.deep_view() =~= target);
        }
        out
    }
}

} // verus!
