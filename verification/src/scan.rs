//! An in-memory picture of a directory tree, the verified scan that finds
//! project markers in it, and the one trusted query against the live
//! filesystem. The surrounding application builds the tree by listing real
//! directories.

use vstd::prelude::*;

use crate::project::project_data::path_names_parent;
use crate::text::{
    spec_last_component, spec_normalize_separators, last_component, normalize_separators,
};

use std::path::PathBuf;

verus! {

/// One directory listing entry: the entry's full path, and its own listing
/// when the entry is a directory.
pub struct FsEntry {
    pub path: String,
    pub dir: Option<FsDir>,
}

/// One directory's listing, in the order the entries were listed.
pub struct FsDir {
    pub entries: Vec<FsEntry>,
}

/// The file name whose presence marks a directory as a project root.
pub open spec fn spec_project_marker() -> Seq<char> {
    "project.godot"@
}

/// Is this entry the project marker: is its file name — the final component
/// of its separator-normalized path — exactly the marker name? A name that
/// merely contains the marker text, such as a backup copy of the marker
/// file, does not count.
pub open spec fn is_marker_entry(e: FsEntry) -> bool {
    spec_last_component(spec_normalize_separators(e.path@)) == spec_project_marker()
}

/// Index of the first marker entry at or after `i`, or the number of entries
/// when there is none.
pub open spec fn spec_first_marker(entries: Seq<FsEntry>, i: int) -> int
    decreases entries.len() - i,
{
    if i < 0 || i >= entries.len() {
        entries.len() as int
    } else if is_marker_entry(entries[i]) {
        i
    } else {
        spec_first_marker(entries, i + 1)
    }
}

pub proof fn lemma_first_marker(entries: Seq<FsEntry>, a: int, i: int)
    requires
        0 <= a <= i <= entries.len(),
        forall|k: int| a <= k < i ==> !is_marker_entry(entries[k]),
        i == entries.len() || is_marker_entry(entries[i]),
    ensures
        spec_first_marker(entries, a) == i,
    decreases i - a,
{
    if a < i {
        lemma_first_marker(entries, a + 1, i);
    }
}

/// Does any entry of the listing carry the project marker?
pub open spec fn has_marker(entries: Seq<FsEntry>) -> bool {
    exists|i: int| 0 <= i < entries.len() && is_marker_entry(entries[i])
}

/// The paths of the project-marker files a scan of `dir` discovers: a
/// directory with a marker entry yields that entry's path alone and is not
/// descended further; a directory without one yields whatever its
/// subdirectories (skipping one literally named `..`) yield, in listing
/// order.
pub open spec fn spec_scan(dir: FsDir) -> Seq<Seq<char>>
    decreases dir, 1int, 0int,
{
    if has_marker(dir.entries@) {
        seq![dir.entries@[spec_first_marker(dir.entries@, 0)].path@]
    } else {
        spec_scan_rest(dir, 0)
    }
}

/// The concatenated scan results of the subdirectory entries of `dir` from
/// index `i` on.
pub open spec fn spec_scan_rest(dir: FsDir, i: int) -> Seq<Seq<char>>
    decreases dir, 0int, dir.entries@.len() - i,
{
    if i < 0 || i >= dir.entries@.len() {
        Seq::empty()
    } else {
        let head = match dir.entries@[i].dir {
            Some(sub) => {
                if dir.entries@[i].path@ == ".."@ {
                    Seq::empty()
                } else {
                    spec_scan(sub)
                }
            },
            None => Seq::empty(),
        };
        head + spec_scan_rest(dir, i + 1)
    }
}

/// Scans an in-memory directory tree for project markers: a directory
/// containing a marker entry yields that entry's path and is not descended
/// further; otherwise every subdirectory entry (but one literally named `..`)
/// is scanned in turn.
pub fn scan_paths(dir: &FsDir) -> (r: Vec<String>)
    ensures
        r.deep_view() == spec_scan(*dir),
    decreases *dir,
{
    let n = dir.entries.len();
    let mut i: usize = 0;
    while i < n
        invariant
            n == dir.entries@.len(),
            0 <= i <= n,
            forall|k: int| 0 <= k < i ==> !is_marker_entry(dir.entries@[k]),
        decreases n - i,
    {
        let entry = &dir.entries[i];
        let normalized = normalize_separators(entry.path.as_str());
        let file_name = last_component(normalized.as_str());
        if file_name.eq(&String::from_str("project.godot")) {
            let mut found: Vec<String> = Vec::new();
            found.push(entry.path.clone());
            proof {
                lemma_first_marker(dir.entries@, 0, i as int);
                assert(found.deep_view() =~= spec_scan(*dir));
            }
            return found;
        }
        i += 1;
    }
    let mut out: Vec<String> = Vec::new();
    let mut j: usize = 0;
    proof {
        assert(!has_marker(dir.entries@));
        assert(out.deep_view() + spec_scan_rest(*dir, 0) =~= spec_scan_rest(*dir, 0));
    }
    while j < n
        invariant
            n == dir.entries@.len(),
            0 <= j <= n,
            !has_marker(dir.entries@),
            spec_scan_rest(*dir, 0) == out.deep_view() + spec_scan_rest(*dir, j as int),
        decreases n - j,
    {
        let entry = &dir.entries[j];
        let ghost before = out.deep_view();
        match &entry.dir {
            Some(sub) => {
                let dots = String::from_str("..");
                if !entry.path.eq(&dots) {
                    proof {
                        assert(decreases_to!(*dir => dir.entries@[j as int].dir->0));
                    }
                    let mut sub_paths = scan_paths(sub);
                    let ghost sub_view = sub_paths.deep_view();
                    out.append(&mut sub_paths);
                    proof {
                        assert(out.deep_view() =~= before + sub_view);
                    }
                } else {
                    proof {
                        reveal_strlit("..");
                    }
                }
            },
            None => {},
        }
        j += 1;
        proof {
            assert(out.deep_view() + spec_scan_rest(*dir, j as int) =~= before + spec_scan_rest(
                *dir,
                j - 1,
            ));
        }
    }
    proof {
        assert(spec_scan_rest(*dir, n as int) =~= Seq::<Seq<char>>::empty());
        assert(out.deep_view() =~= out.deep_view() + Seq::<Seq<char>>::empty());
    }
    out
}

impl FsDir {
    /// A well-formed tree: every entry path names its parent folder (it has a
    /// separator once normalized), at every level. A tree built by joining
    /// each listed name under the directory being listed has this shape.
    pub open spec fn wf(self) -> bool
        decreases self, 1int, 0int,
    {
        self.wf_rest(0)
    }

    /// Well-formedness of the entries from index `i` on.
    pub open spec fn wf_rest(self, i: int) -> bool
        decreases self, 0int, self.entries@.len() - i,
    {
        if i < 0 || i >= self.entries@.len() {
            true
        } else {
            &&& path_names_parent(self.entries@[i].path@)
            &&& match self.entries@[i].dir {
                Some(sub) => sub.wf(),
                None => true,
            }
            &&& self.wf_rest(i + 1)
        }
    }
}

pub proof fn lemma_wf_entry(dir: FsDir, a: int, i: int)
    requires
        dir.wf_rest(a),
        0 <= a <= i < dir.entries@.len(),
    ensures
        path_names_parent(dir.entries@[i].path@),
        dir.entries@[i].dir is Some ==> dir.entries@[i].dir->0.wf(),
    decreases i - a,
{
    if a < i {
        lemma_wf_entry(dir, a + 1, i);
    }
}

pub proof fn lemma_first_marker_is_match(entries: Seq<FsEntry>, a: int)
    requires
        0 <= a <= entries.len(),
    ensures
        a <= spec_first_marker(entries, a) <= entries.len(),
        spec_first_marker(entries, a) < entries.len() ==> is_marker_entry(
            entries[spec_first_marker(entries, a)],
        ),
        forall|k: int|
            a <= k < spec_first_marker(entries, a) ==> !is_marker_entry(entries[k]),
    decreases entries.len() - a,
{
    if a < entries.len() && !is_marker_entry(entries[a]) {
        lemma_first_marker_is_match(entries, a + 1);
    }
}

/// Every path a scan of a well-formed tree discovers names its parent folder,
/// so a project record can be built from it.
pub proof fn lemma_scan_paths_name_parents(dir: FsDir)
    requires
        dir.wf(),
    ensures
        forall|k: int|
            0 <= k < spec_scan(dir).len() ==> path_names_parent(#[trigger] spec_scan(dir)[k]),
    decreases dir, 1int, 0int,
{
    if has_marker(dir.entries@) {
        lemma_first_marker_is_match(dir.entries@, 0);
        let f = spec_first_marker(dir.entries@, 0);
        assert(f < dir.entries@.len());
        lemma_wf_entry(dir, 0, f);
        assert(spec_scan(dir) =~= seq![dir.entries@[f].path@]);
        assert(path_names_parent(spec_scan(dir)[0]));
    } else {
        lemma_scan_rest_names_parents(dir, 0);
        assert forall|k: int|
            0 <= k < spec_scan(dir).len() implies path_names_parent(
            #[trigger] spec_scan(dir)[k],
        ) by {
            assert(spec_scan(dir) == spec_scan_rest(dir, 0));
            assert(path_names_parent(spec_scan_rest(dir, 0)[k]));
        }
    }
}

pub proof fn lemma_scan_rest_names_parents(dir: FsDir, i: int)
    requires
        dir.wf(),
    ensures
        forall|k: int|
            0 <= k < spec_scan_rest(dir, i).len() ==> path_names_parent(
                #[trigger] spec_scan_rest(dir, i)[k],
            ),
    decreases dir, 0int, dir.entries@.len() - i,
{
    if 0 <= i < dir.entries@.len() {
        match dir.entries@[i].dir {
            Some(sub) => {
                if dir.entries@[i].path@ != ".."@ {
                    lemma_wf_entry(dir, 0, i);
                    lemma_scan_paths_name_parents(sub);
                }
            },
            None => {},
        }
        lemma_scan_rest_names_parents(dir, i + 1);
        let head = match dir.entries@[i].dir {
            Some(sub) => {
                if dir.entries@[i].path@ == ".."@ {
                    Seq::<Seq<char>>::empty()
                } else {
                    spec_scan(sub)
                }
            },
            None => Seq::<Seq<char>>::empty(),
        };
        assert(spec_scan_rest(dir, i) == head + spec_scan_rest(dir, i + 1));
        assert forall|k: int|
            0 <= k < spec_scan_rest(dir, i).len() implies path_names_parent(
            #[trigger] spec_scan_rest(dir, i)[k],
        ) by {
            if k < head.len() {
                assert(spec_scan_rest(dir, i)[k] == head[k]);
            } else {
                assert(spec_scan_rest(dir, i)[k] == spec_scan_rest(dir, i + 1)[k - head.len()]);
                assert(path_names_parent(spec_scan_rest(dir, i + 1)[k - head.len()]));
            }
        }
    }
}

/// Relies on `std::path::Path::exists`: answers whether `path` names an
/// existing filesystem object right now. The answer depends on the live
/// filesystem, so nothing is promised of it.
#[verifier::external_body]
pub fn path_exists(path: &String) -> bool {
    PathBuf::from(path).exists()
}

} // verus!
