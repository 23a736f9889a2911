//! An earlier cut of the reconciliation pass over the earlier record shape:
//! the persisted list comes first, newly found projects are appended when no
//! persisted record's name equals their recorded path, and the engine check
//! walks the version list with a cursor that never rewinds.

use vstd::prelude::*;

use crate::directory::project_data::{ProjectData, ProjectDataView};
use crate::godot_service::godot_engine_version::{GodotEngineVersion, GodotEngineVersionView};
use crate::project::project_service::{lemma_first_version_index, spec_first_version_index};
use crate::scan::path_exists;

verus! {

/// Some record of `projects` is named `key`.
pub open spec fn spec_any_name(projects: Seq<ProjectDataView>, key: Seq<char>) -> bool {
    exists|i: int| 0 <= i < projects.len() && projects[i].project_name == key
}

/// The combination this pass builds: starting from the persisted list, each
/// freshly found record is appended unless some accumulated record's name
/// equals the found record's path.
pub open spec fn spec_combine(
    acc: Seq<ProjectDataView>,
    found: Seq<ProjectDataView>,
) -> Seq<ProjectDataView>
    decreases found.len(),
{
    if found.len() == 0 {
        acc
    } else {
        let acc2 = if spec_any_name(acc, found[0].project_path) {
            acc
        } else {
            acc.push(found[0])
        };
        spec_combine(acc2, found.drop_first())
    }
}

/// Every project list with each record's `path_valid` flag replaced by the
/// matching verdict of `path_ok`, all other fields untouched.
pub open spec fn spec_apply_path_validity(
    projects: Seq<ProjectDataView>,
    path_ok: Seq<bool>,
) -> Seq<ProjectDataView> {
    projects.map(|i: int, p: ProjectDataView| ProjectDataView { path_valid: path_ok[i], ..p })
}

/// The engine flags this pass computes: walking the records in order with a
/// cursor into the version list, each record's flag answers for the first
/// version at or after the cursor whose name equals the record's version
/// field, and the cursor moves past it; a record whose version is not found
/// exhausts the cursor.
pub open spec fn spec_engine_scan_apply(
    projects: Seq<ProjectDataView>,
    versions: Seq<GodotEngineVersionView>,
    version_ok: Seq<bool>,
    cursor: int,
) -> Seq<ProjectDataView>
    decreases projects.len(),
{
    if projects.len() == 0 {
        Seq::empty()
    } else {
        let j = spec_first_version_index(versions, projects[0].project_version, cursor);
        let valid = j < versions.len() && version_ok[j];
        let next_cursor = if j < versions.len() {
            j + 1
        } else {
            j
        };
        seq![ProjectDataView { engine_valid: valid, ..projects[0] }] + spec_engine_scan_apply(
            projects.drop_first(),
            versions,
            version_ok,
            next_cursor,
        )
    }
}

/// Is some record of `projects` named `key`?
fn any_name_matches(projects: &Vec<ProjectData>, key: &String) -> (r: bool)
    ensures
        r == spec_any_name(projects.deep_view(), key@),
{
    let n = projects.len();
    let mut i: usize = 0;
    while i < n
        invariant
            n == projects@.len(),
            0 <= i <= n,
            forall|k: int| 0 <= k < i ==> projects.deep_view()[k].project_name != key@,
        decreases n - i,
    {
        if projects[i].project_name.eq(key) {
            proof {
                assert(projects.deep_view()[i as int].project_name == key@);
            }
            return true;
        }
        i += 1;
    }
    false
}

/// Index of the first version at or after `start` named `name`, if any.
fn find_version_from(versions: &Vec<GodotEngineVersion>, name: &String, start: usize) -> (r:
    Option<usize>)
    requires
        start <= versions@.len(),
    ensures
        match r {
            Some(j) => start <= j < versions@.len() && j == spec_first_version_index(
                versions.deep_view(),
                name@,
                start as int,
            ),
            None => spec_first_version_index(versions.deep_view(), name@, start as int)
                == versions@.len() as int,
        },
{
    let n = versions.len();
    let mut j: usize = start;
    while j < n
        invariant
            n == versions@.len(),
            start <= j <= n,
            forall|k: int| start <= k < j ==> versions.deep_view()[k].version_name != name@,
        decreases n - j,
    {
        if versions[j].version_name.eq(name) {
            proof {
                lemma_first_version_index(versions.deep_view(), name@, start as int, j as int);
            }
            return Some(j);
        }
        j += 1;
    }
    proof {
        lemma_first_version_index(versions.deep_view(), name@, start as int, n as int);
    }
    None
}

/// Recomputes every record's `path_valid` flag from the live filesystem. The
/// flags' previous values are never consulted; every other field is kept.
pub fn validate_project_paths(projects: &mut Vec<ProjectData>)
    ensures
        exists|path_ok: Seq<bool>|
            path_ok.len() == old(projects)@.len() && final(projects).deep_view()
                == spec_apply_path_validity(old(projects).deep_view(), path_ok),
{
    let n = projects.len();
    let mut i: usize = 0;
    let ghost mut oks: Seq<bool> = Seq::empty();
    while i < n
        invariant
            n == projects@.len() == old(projects)@.len(),
            0 <= i <= n,
            oks.len() == i,
            forall|k: int|
                0 <= k < i ==> projects.deep_view()[k] == (ProjectDataView {
                    path_valid: oks[k],
                    ..old(projects).deep_view()[k]
                }),
            forall|k: int| i <= k < n ==> projects@[k] == old(projects)@[k],
        decreases n - i,
    {
        let ghost prev = projects.deep_view();
        let verdict = path_exists(&projects[i].project_path);
        let mut updated = projects[i].clone();
        updated.path_valid = verdict;
        projects.set(i, updated);
        proof {
            oks = oks.push(verdict);
        }
        i += 1;
        proof {
            assert forall|k: int|
                0 <= k < i - 1 implies projects.deep_view()[k] == (ProjectDataView {
                path_valid: oks[k],
                ..old(projects).deep_view()[k]
            }) by {
                assert(projects.deep_view()[k] == prev[k]);
            }
        }
    }
    proof {
        assert(projects.deep_view() =~= spec_apply_path_validity(
            old(projects).deep_view(),
            oks,
        ));
    }
}

/// Recomputes every record's `engine_valid` flag, walking the version list
/// with a cursor that never rewinds: each record's flag answers for the
/// first not-yet-passed version whose name equals the record's version
/// field and for that version's presence on the live filesystem. The flags'
/// previous values are never consulted; every other field is kept.
pub fn validate_godot_versions(
    projects: &mut Vec<ProjectData>,
    godot_versions: Vec<GodotEngineVersion>,
)
    ensures
        exists|version_ok: Seq<bool>|
            version_ok.len() == godot_versions@.len() && final(projects).deep_view()
                == spec_engine_scan_apply(
                old(projects).deep_view(),
                godot_versions.deep_view(),
                version_ok,
                0,
            ),
{
    let vn = godot_versions.len();
    let mut version_ok: Vec<bool> = Vec::new();
    let mut i: usize = 0;
    while i < vn
        invariant
            vn == godot_versions@.len(),
            0 <= i <= vn,
            version_ok@.len() == i,
        decreases vn - i,
    {
        let verdict = path_exists(&godot_versions[i].path);
        version_ok.push(verdict);
        i += 1;
    }
    let ghost old_view = old(projects).deep_view();
    let ghost vv = godot_versions.deep_view();
    let ghost okv = version_ok@;
    let ghost target = spec_engine_scan_apply(old_view, vv, okv, 0);
    let n = projects.len();
    let mut cursor: usize = 0;
    let mut i: usize = 0;
    proof {
        assert(old_view.subrange(0, n as int) =~= old_view);
        assert(projects.deep_view().subrange(0, 0) =~= Seq::<ProjectDataView>::empty());
        assert(target =~= projects.deep_view().subrange(0, 0) + spec_engine_scan_apply(
            old_view.subrange(0, n as int),
            vv,
            okv,
            0,
        ));
    }
    while i < n
        invariant
            n == projects@.len() == old_view.len(),
            vv == godot_versions.deep_view(),
            okv == version_ok@,
            okv.len() == vv.len(),
            vn == godot_versions@.len(),
            0 <= i <= n,
            cursor <= vv.len(),
            target == projects.deep_view().subrange(0, i as int) + spec_engine_scan_apply(
                old_view.subrange(i as int, n as int),
                vv,
                okv,
                cursor as int,
            ),
            forall|k: int| i <= k < n ==> projects@[k] == old(projects)@[k],
            old_view == old(projects).deep_view(),
        decreases n - i,
    {
        let ghost prev = projects.deep_view();
        let ghost rest = old_view.subrange(i as int, n as int);
        let name = projects[i].project_version.clone();
        let verdict: bool;
        match find_version_from(&godot_versions, &name, cursor) {
            Some(j) => {
                verdict = version_ok[j];
                cursor = j + 1;
            },
            None => {
                verdict = false;
                cursor = godot_versions.len();
            },
        }
        let mut updated = projects[i].clone();
        updated.engine_valid = verdict;
        projects.set(i, updated);
        i += 1;
        proof {
            assert(rest[0] == old_view[i - 1]);
            assert(rest.drop_first() =~= old_view.subrange(i as int, n as int));
            assert(projects.deep_view()[i - 1] == (ProjectDataView {
                engine_valid: verdict,
                ..old_view[i - 1]
            }));
            assert(projects.deep_view().subrange(0, i as int) =~= prev.subrange(
                0,
                i - 1,
            ).push(projects.deep_view()[i - 1]));
            assert(target =~= projects.deep_view().subrange(0, i as int)
                + spec_engine_scan_apply(
                old_view.subrange(i as int, n as int),
                vv,
                okv,
                cursor as int,
            ));
        }
    }
    proof {
        assert(old_view.subrange(n as int, n as int) =~= Seq::<ProjectDataView>::empty());
        assert(projects.deep_view().subrange(0, n as int) =~= projects.deep_view());
        assert(projects.deep_view() =~= target);
    }
}

/// Combines the persisted project list with the freshly found one — the
/// persisted records first, then each found record whose recorded path no
/// accumulated record is named after — and recomputes both validity flags
/// from the live filesystem.
pub fn project_reconciliation(
    existing_projects: Vec<ProjectData>,
    found_projects: Vec<ProjectData>,
    all_godot_versions: Vec<GodotEngineVersion>,
) -> (r: Vec<ProjectData>)
    ensures
        exists|path_ok: Seq<bool>, version_ok: Seq<bool>|
            {
                &&& path_ok.len() == spec_combine(
                    existing_projects.deep_view(),
                    found_projects.deep_view(),
                ).len()
                &&& version_ok.len() == all_godot_versions@.len()
                &&& r.deep_view() == #[trigger] spec_engine_scan_apply(
                    spec_apply_path_validity(
                        spec_combine(
                            existing_projects.deep_view(),
                            found_projects.deep_view(),
                        ),
                        path_ok,
                    ),
                    all_godot_versions.deep_view(),
                    version_ok,
                    0,
                )
            },
{
    let ghost existing_view = existing_projects.deep_view();
    let ghost found_view = found_projects.deep_view();
    let mut reconciled_projects = existing_projects;
    let n = found_projects.len();
    let mut i: usize = 0;
    proof {
        assert(found_view.subrange(0, n as int) =~= found_view);
    }
    while i < n
        invariant
            n == found_view.len(),
            found_view == found_projects.deep_view(),
            0 <= i <= n,
            spec_combine(existing_view, found_view) == spec_combine(
                reconciled_projects.deep_view(),
                found_view.subrange(i as int, n as int),
            ),
        decreases n - i,
    {
        let ghost acc = reconciled_projects.deep_view();
        let ghost rest = found_view.subrange(i as int, n as int);
        if !any_name_matches(&reconciled_projects, &found_projects[i].project_path) {
            reconciled_projects.push(found_projects[i].clone());
            proof {
                assert(reconciled_projects.deep_view() =~= acc.push(found_view[i as int]));
            }
        }
        i += 1;
        proof {
            assert(rest[0] == found_view[i - 1]);
            assert(rest.drop_first() =~= found_view.subrange(i as int, n as int));
        }
    }
    proof {
        assert(found_view.subrange(n as int, n as int) =~= Seq::<ProjectDataView>::empty());
        assert(reconciled_projects.deep_view() =~= spec_combine(existing_view, found_view));
    }
    validate_project_paths(&mut reconciled_projects);
    validate_godot_versions(&mut reconciled_projects, all_godot_versions);
    reconciled_projects
}

/// Does nothing when the project path does not exist; the engine launch
/// itself is outside this library.
pub fn open_project(project_path: String) {
    if !path_exists(&project_path) {
        return;
    }
}

} // verus!
