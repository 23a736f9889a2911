//! The session's shared state: the engine and project caches, and the
//! download tracker — the single source of truth for "is this engine
//! currently downloading", with its admission, progress and completion
//! transitions.

use vstd::prelude::*;

use crate::godot_service::godot_engine_version::{GodotEngineVersion, GodotEngineVersionView};
use crate::project::project_data::{ProjectConfig, ProjectData, ProjectDataView};
use crate::project::project_service::{
    find_version_index, spec_first_version_index, spec_has_name, spec_scanned_record,
    ProjectDirectoryService,
};
use crate::scan::{spec_scan, FsDir};

verus! {

/// The aggregate session state: every known engine release, the installed
/// ones, and the reconciled project list.
pub struct Data {
    pub all_godot_engine_versions: Vec<GodotEngineVersion>,
    pub installed_godot_engine_versions: Vec<GodotEngineVersion>,
    pub projects: Vec<ProjectData>,
}

/// Some version of `versions` carries the name `name`.
pub open spec fn spec_version_listed(
    versions: Seq<GodotEngineVersionView>,
    name: Seq<char>,
) -> bool {
    exists|i: int| 0 <= i < versions.len() && versions[i].version_name == name
}

/// The download progress percentage after `received_bytes` of `total_bytes`
/// have arrived.
pub open spec fn spec_progress_percent(received_bytes: int, total_bytes: int) -> int {
    received_bytes * 100 / total_bytes
}

/// Law: within one download the recorded percentage never goes down — as
/// received bytes only accumulate, the floor of the received percentage is
/// non-decreasing.
pub proof fn lemma_progress_monotone(
    received_before: int,
    received_after: int,
    total_bytes: int,
)
    requires
        0 <= received_before <= received_after,
        total_bytes > 0,
    ensures
        spec_progress_percent(received_before, total_bytes) <= spec_progress_percent(
            received_after,
            total_bytes,
        ),
{
    assert(received_before * 100 / total_bytes <= received_after * 100 / total_bytes)
        by (nonlinear_arith)
        requires
            0 <= received_before <= received_after,
            total_bytes > 0,
    ;
}

/// Tracks in-flight engine downloads: a map from engine-version name to the
/// percentage of the archive received so far. Absence from the map is the
/// signal "not currently downloading"; a finished download's entry is
/// removed, never parked at a terminal state, because installed-ness is
/// re-derived from the filesystem.
pub struct DownloadTracker {
    entries: Vec<(String, u64)>,
}

impl View for DownloadTracker {
    type V = Seq<(Seq<char>, u64)>;

    closed spec fn view(&self) -> Seq<(Seq<char>, u64)> {
        self.entries.deep_view()
    }
}

/// No name appears twice among the tracker entries.
pub open spec fn spec_unique_names(entries: Seq<(Seq<char>, u64)>) -> bool {
    forall|i: int, j: int| 0 <= i < j < entries.len() ==> entries[i].0 != entries[j].0
}

/// Every recorded percentage is at most one hundred.
pub open spec fn spec_percents_bounded(entries: Seq<(Seq<char>, u64)>) -> bool {
    forall|i: int| 0 <= i < entries.len() ==> (#[trigger] entries[i]).1 <= 100
}

/// Some entry carries the name `name`.
pub open spec fn spec_tracked(entries: Seq<(Seq<char>, u64)>, name: Seq<char>) -> bool {
    exists|i: int| 0 <= i < entries.len() && entries[i].0 == name
}

/// The percentage recorded beside the name `name`.
pub open spec fn spec_percent(entries: Seq<(Seq<char>, u64)>, name: Seq<char>) -> u64 {
    let i = choose|i: int| 0 <= i < entries.len() && entries[i].0 == name;
    entries[i].1
}

/// With unique names, the entry at a known index answers both queries.
pub proof fn lemma_entry_queries(entries: Seq<(Seq<char>, u64)>, name: Seq<char>, i: int)
    requires
        spec_unique_names(entries),
        0 <= i < entries.len(),
        entries[i].0 == name,
    ensures
        spec_tracked(entries, name),
        spec_percent(entries, name) == entries[i].1,
{
    let j = choose|j: int| 0 <= j < entries.len() && entries[j].0 == name;
    if i < j {
        assert(entries[i].0 != entries[j].0);
    } else if j < i {
        assert(entries[j].0 != entries[i].0);
    }
}

/// Overwriting the entry of `name` in place leaves every other name's
/// queries unchanged.
proof fn lemma_preserved_update(
    prev: Seq<(Seq<char>, u64)>,
    i: int,
    name: Seq<char>,
    percent: u64,
)
    requires
        spec_unique_names(prev),
        spec_percents_bounded(prev),
        percent <= 100,
        0 <= i < prev.len(),
        prev[i].0 == name,
    ensures
        ({
            let cur = prev.update(i, (name, percent));
            &&& spec_unique_names(cur)
            &&& spec_percents_bounded(cur)
            &&& forall|n: Seq<char>|
                n != name ==> (spec_tracked(cur, n) <==> spec_tracked(prev, n))
            &&& forall|n: Seq<char>|
                n != name && spec_tracked(prev, n) ==> spec_percent(cur, n) == spec_percent(
                    prev,
                    n,
                )
        }),
{
    let cur = prev.update(i, (name, percent));
    assert forall|k: int| 0 <= k < cur.len() implies (#[trigger] cur[k]).1 <= 100 by {
        if k != i {
            assert(cur[k] == prev[k]);
            assert(prev[k].1 <= 100);
        }
    }
    assert forall|n: Seq<char>|
        n != name implies (spec_tracked(cur, n) <==> spec_tracked(prev, n)) by {
        if spec_tracked(prev, n) {
            let k = choose|k: int| 0 <= k < prev.len() && prev[k].0 == n;
            assert(cur[k].0 == n);
        }
        if spec_tracked(cur, n) {
            let k = choose|k: int| 0 <= k < cur.len() && cur[k].0 == n;
            assert(prev[k].0 == n);
        }
    }
    assert forall|n: Seq<char>|
        n != name && spec_tracked(prev, n) implies spec_percent(cur, n) == spec_percent(
        prev,
        n,
    ) by {
        let k = choose|k: int| 0 <= k < prev.len() && prev[k].0 == n;
        lemma_entry_queries(prev, n, k);
        lemma_entry_queries(cur, n, k);
    }
}

/// Appending a fresh name leaves every other name's queries unchanged.
proof fn lemma_preserved_push(prev: Seq<(Seq<char>, u64)>, name: Seq<char>, percent: u64)
    requires
        spec_unique_names(prev),
        spec_percents_bounded(prev),
        percent <= 100,
        !spec_tracked(prev, name),
    ensures
        ({
            let cur = prev.push((name, percent));
            &&& spec_unique_names(cur)
            &&& spec_percents_bounded(cur)
            &&& forall|n: Seq<char>|
                n != name ==> (spec_tracked(cur, n) <==> spec_tracked(prev, n))
            &&& forall|n: Seq<char>|
                n != name && spec_tracked(prev, n) ==> spec_percent(cur, n) == spec_percent(
                    prev,
                    n,
                )
        }),
{
    let cur = prev.push((name, percent));
    assert forall|k: int| 0 <= k < cur.len() implies (#[trigger] cur[k]).1 <= 100 by {
        if k < prev.len() {
            assert(cur[k] == prev[k]);
            assert(prev[k].1 <= 100);
        }
    }
    assert forall|a: int, b: int| 0 <= a < b < cur.len() implies cur[a].0 != cur[b].0 by {
        if b < prev.len() {
            assert(prev[a].0 != prev[b].0);
        } else {
            assert(cur[b].0 == name);
            assert(prev[a].0 != name);
        }
    }
    assert forall|n: Seq<char>|
        n != name implies (spec_tracked(cur, n) <==> spec_tracked(prev, n)) by {
        if spec_tracked(prev, n) {
            let k = choose|k: int| 0 <= k < prev.len() && prev[k].0 == n;
            assert(cur[k].0 == n);
        }
        if spec_tracked(cur, n) {
            let k = choose|k: int| 0 <= k < cur.len() && cur[k].0 == n;
            assert(k < prev.len());
            assert(prev[k].0 == n);
        }
    }
    assert forall|n: Seq<char>|
        n != name && spec_tracked(prev, n) implies spec_percent(cur, n) == spec_percent(
        prev,
        n,
    ) by {
        let k = choose|k: int| 0 <= k < prev.len() && prev[k].0 == n;
        lemma_entry_queries(prev, n, k);
        lemma_entry_queries(cur, n, k);
    }
}

/// Removing the entry of `name` leaves every other name's queries unchanged.
proof fn lemma_preserved_remove(prev: Seq<(Seq<char>, u64)>, i: int, name: Seq<char>)
    requires
        spec_unique_names(prev),
        spec_percents_bounded(prev),
        0 <= i < prev.len(),
        prev[i].0 == name,
    ensures
        ({
            let cur = prev.remove(i);
            &&& spec_unique_names(cur)
            &&& spec_percents_bounded(cur)
            &&& !spec_tracked(cur, name)
            &&& forall|n: Seq<char>|
                n != name ==> (spec_tracked(cur, n) <==> spec_tracked(prev, n))
            &&& forall|n: Seq<char>|
                n != name && spec_tracked(prev, n) ==> spec_percent(cur, n) == spec_percent(
                    prev,
                    n,
                )
        }),
{
    let cur = prev.remove(i);
    assert forall|k: int| 0 <= k < cur.len() implies (#[trigger] cur[k]).1 <= 100 by {
        let pk = if k < i { k } else { k + 1 };
        assert(cur[k] == prev[pk]);
        assert(prev[pk].1 <= 100);
    }
    assert forall|a: int, b: int| 0 <= a < b < cur.len() implies cur[a].0 != cur[b].0 by {
        let pa = if a < i { a } else { a + 1 };
        let pb = if b < i { b } else { b + 1 };
        assert(cur[a] == prev[pa]);
        assert(cur[b] == prev[pb]);
        assert(prev[pa].0 != prev[pb].0);
    }
    assert forall|k: int| 0 <= k < cur.len() implies cur[k].0 != name by {
        let pk = if k < i { k } else { k + 1 };
        assert(cur[k] == prev[pk]);
        if pk < i {
            assert(prev[pk].0 != prev[i].0);
        } else {
            assert(prev[i].0 != prev[pk].0);
        }
    }
    assert forall|n: Seq<char>|
        n != name implies (spec_tracked(cur, n) <==> spec_tracked(prev, n)) by {
        if spec_tracked(prev, n) {
            let k = choose|k: int| 0 <= k < prev.len() && prev[k].0 == n;
            if k < i {
                assert(cur[k].0 == n);
            } else {
                assert(cur[k - 1].0 == n);
            }
        }
        if spec_tracked(cur, n) {
            let k = choose|k: int| 0 <= k < cur.len() && cur[k].0 == n;
            let pk = if k < i { k } else { k + 1 };
            assert(prev[pk].0 == n);
        }
    }
    assert forall|n: Seq<char>|
        n != name && spec_tracked(prev, n) implies spec_percent(cur, n) == spec_percent(
        prev,
        n,
    ) by {
        let k = choose|k: int| 0 <= k < prev.len() && prev[k].0 == n;
        lemma_entry_queries(prev, n, k);
        if k < i {
            assert(cur[k] == prev[k]);
            lemma_entry_queries(cur, n, k);
        } else {
            assert(cur[k - 1] == prev[k]);
            lemma_entry_queries(cur, n, k - 1);
        }
    }
}

impl DownloadTracker {
    /// Each tracked name appears at most once, and every recorded
    /// percentage is a true percentage: at most one hundred.
    pub open spec fn wf(self) -> bool {
        &&& spec_unique_names(self@)
        &&& spec_percents_bounded(self@)
    }

    /// A download of `name` is in flight.
    pub open spec fn is_tracked(self, name: Seq<char>) -> bool {
        spec_tracked(self@, name)
    }

    /// The recorded percentage for `name`.
    pub open spec fn percent_of(self, name: Seq<char>) -> u64 {
        spec_percent(self@, name)
    }

    /// An empty tracker: nothing is downloading.
    pub fn new() -> (r: DownloadTracker)
        ensures
            r.wf(),
            r@.len() == 0,
    {
        DownloadTracker { entries: Vec::new() }
    }

    /// Index of `name` in the tracker, if present.
    fn find_name(&self, name: &String) -> (r: Option<usize>)
        ensures
            match r {
                Some(i) => 0 <= i < self@.len() && self@[i as int].0 == name@,
                None => !self.is_tracked(name@),
            },
    {
        let n = self.entries.len();
        let mut i: usize = 0;
        while i < n
            invariant
                n == self.entries@.len(),
                self@ == self.entries.deep_view(),
                0 <= i <= n,
                forall|k: int| 0 <= k < i ==> self@[k].0 != name@,
            decreases n - i,
        {
            if self.entries[i].0.eq(name) {
                return Some(i);
            }
            i += 1;
        }
        None
    }

    /// Is a download of `version_name` currently in flight?
    pub fn is_downloading(&self, version_name: &String) -> (r: bool)
        ensures
            r == self.is_tracked(version_name@),
    {
        match self.find_name(version_name) {
            Some(_) => true,
            None => false,
        }
    }

    /// Admits a new download of `version_name` unless one is already in
    /// flight or the version is already installed: the check and the
    /// insertion are one step, so two downloads of one version can never both
    /// be admitted. On admission the version starts at zero percent; on
    /// refusal the tracker is unchanged.
    pub fn try_start(
        &mut self,
        version_name: &String,
        installed: &Vec<GodotEngineVersion>,
    ) -> (r: bool)
        requires
            old(self).wf(),
        ensures
            final(self).wf(),
            r == (!old(self).is_tracked(version_name@) && !spec_version_listed(
                installed.deep_view(),
                version_name@,
            )),
            r ==> final(self)@ == old(self)@.push((version_name@, 0u64)),
            r ==> final(self).is_tracked(version_name@) && final(self).percent_of(version_name@)
                == 0,
            !r ==> final(self)@ == old(self)@,
    {
        if self.find_name(version_name).is_some() {
            return false;
        }
        match find_version_index(installed, version_name) {
            Some(_) => {
                proof {
                    lemma_spec_first_version_index_listed(installed.deep_view(), version_name@);
                }
                false
            },
            None => {
                proof {
                    lemma_spec_first_version_index_listed(installed.deep_view(), version_name@);
                }
                self.entries.push((version_name.clone(), 0));
                proof {
                    assert(self@ =~= old(self)@.push((version_name@, 0u64)));
                    lemma_entry_queries(self@, version_name@, self@.len() - 1);
                }
                true
            },
        }
    }

    /// Records that `received_bytes` of `total_bytes` have arrived for
    /// `version_name`: its entry now holds the floor of the received
    /// percentage, and no other entry moves.
    pub fn set_progress(&mut self, version_name: &String, received_bytes: u64, total_bytes: u64)
        requires
            old(self).wf(),
            total_bytes > 0,
            received_bytes <= total_bytes,
        ensures
            final(self).wf(),
            final(self).is_tracked(version_name@),
            final(self).percent_of(version_name@) == spec_progress_percent(
                received_bytes as int,
                total_bytes as int,
            ),
            forall|n: Seq<char>|
                n != version_name@ ==> (final(self).is_tracked(n) <==> old(self).is_tracked(n)),
            forall|n: Seq<char>|
                n != version_name@ && old(self).is_tracked(n) ==> final(self).percent_of(n)
                    == old(self).percent_of(n),
    {
        let percent = Self::progress_percent(received_bytes, total_bytes);
        let ghost prev = self@;
        match self.find_name(version_name) {
            Some(i) => {
                self.entries.set(i, (version_name.clone(), percent));
                proof {
                    assert(self@ =~= prev.update(i as int, (version_name@, percent)));
                    lemma_preserved_update(prev, i as int, version_name@, percent);
                    lemma_entry_queries(self@, version_name@, i as int);
                }
            },
            None => {
                self.entries.push((version_name.clone(), percent));
                proof {
                    assert(self@ =~= prev.push((version_name@, percent)));
                    lemma_preserved_push(prev, version_name@, percent);
                    lemma_entry_queries(self@, version_name@, self@.len() - 1);
                }
            },
        }
    }

    /// Drops `version_name` from the tracker the moment its archive is
    /// extracted — or its download fails, so a retry is possible instead of a
    /// stale percentage: the version is no longer downloading, and every
    /// other in-flight download is untouched. Dropping an untracked name
    /// changes nothing.
    pub fn finish(&mut self, version_name: &String)
        requires
            old(self).wf(),
        ensures
            final(self).wf(),
            !final(self).is_tracked(version_name@),
            forall|n: Seq<char>|
                n != version_name@ ==> (final(self).is_tracked(n) <==> old(self).is_tracked(n)),
            forall|n: Seq<char>|
                n != version_name@ && old(self).is_tracked(n) ==> final(self).percent_of(n)
                    == old(self).percent_of(n),
    {
        let ghost prev = self@;
        match self.find_name(version_name) {
            Some(i) => {
                self.entries.remove(i);
                proof {
                    assert(self@ =~= prev.remove(i as int));
                    lemma_preserved_remove(prev, i as int, version_name@);
                }
            },
            None => {},
        }
    }

    /// The floor of the received percentage of a transfer.
    pub fn progress_percent(received_bytes: u64, total_bytes: u64) -> (p: u64)
        requires
            total_bytes > 0,
            received_bytes <= total_bytes,
        ensures
            p == spec_progress_percent(received_bytes as int, total_bytes as int),
            p <= 100,
    {
        let wide = (received_bytes as u128) * 100 / (total_bytes as u128);
        proof {
            let r = received_bytes as int;
            let t = total_bytes as int;
            assert(r * 100 / t <= 100) by (nonlinear_arith)
                requires
                    0 < t,
                    0 <= r <= t,
            ;
            assert(wide as int == r * 100 / t);
        }
        wide as u64
    }

    /// One (name, percentage) pair per in-flight download, in tracker order;
    /// of a well-formed tracker, every reported percentage is at most one
    /// hundred.
    pub fn snapshot(&self) -> (r: Vec<(String, u64)>)
        ensures
            r.deep_view() == self@,
            self.wf() ==> forall|k: int|
                0 <= k < r.deep_view().len() ==> (#[trigger] r.deep_view()[k]).1 <= 100,
    {
        let n = self.entries.len();
        let mut out: Vec<(String, u64)> = Vec::new();
        let mut i: usize = 0;
        while i < n
            invariant
                n == self.entries@.len(),
                self@ == self.entries.deep_view(),
                0 <= i <= n,
                out@.len() == i,
                forall|k: int| 0 <= k < i ==> out.deep_view()[k] == self@[k],
            decreases n - i,
        {
            let name = self.entries[i].0.clone();
            let percent = self.entries[i].1;
            out.push((name, percent));
            i += 1;
        }
        proof {
            assert(out.deep_view() =~= self@);
        }
        out
    }

    /// Keeps only the installed versions that are not currently downloading,
    /// in order: what may be reported as installed. A version is never
    /// reported installed and downloading at once.
    pub fn filter_installed(&self, installed: Vec<GodotEngineVersion>) -> (r: Vec<
        GodotEngineVersion,
    >)
        ensures
            r.deep_view() == installed.deep_view().filter(
                |v: GodotEngineVersionView| !self.is_tracked(v.version_name),
            ),
            forall|k: int|
                0 <= k < r.deep_view().len() ==> !self.is_tracked(
                    #[trigger] r.deep_view()[k].version_name,
                ),
    {
        let ghost pred = |v: GodotEngineVersionView| !self.is_tracked(v.version_name);
        let mut out: Vec<GodotEngineVersion> = Vec::new();
        let mut i: usize = 0;
        proof {
            assert(installed.deep_view().subrange(0, 0).filter(pred) =~= Seq::<
                GodotEngineVersionView,
            >::empty()) by {
                reveal(Seq::filter);
                assert(installed.deep_view().subrange(0, 0) =~= Seq::<
                    GodotEngineVersionView,
                >::empty());
            }
        }
        while i < installed.len()
            invariant
                pred == (|v: GodotEngineVersionView| !self.is_tracked(v.version_name)),
                0 <= i <= installed@.len(),
                out.deep_view() == installed.deep_view().subrange(0, i as int).filter(pred),
            decreases installed@.len() - i,
        {
            let ghost before = installed.deep_view().subrange(0, i as int);
            if !self.is_downloading(&installed[i].version_name) {
                out.push(installed[i].clone());
            }
            i += 1;
            proof {
                let after = installed.deep_view().subrange(0, i as int);
                assert(after =~= before.push(installed.deep_view()[i - 1]));
                assert(after.drop_last() =~= before);
                reveal(Seq::filter);
                assert(out.deep_view() =~= after.filter(pred));
            }
        }
        proof {
            assert(installed.deep_view().subrange(0, installed@.len() as int)
                =~= installed.deep_view());
            assert forall|k: int|
                0 <= k < out.deep_view().len() implies !self.is_tracked(
                #[trigger] out.deep_view()[k].version_name,
            ) by {
                installed.deep_view().lemma_filter_pred(pred, k);
            }
        }
        out
    }
}

/// Admits and records a new download of `engine_name`: when the named
/// release is known, not already installed, and not already downloading, its
/// descriptor is returned and the tracker now carries it at zero percent.
/// Otherwise nothing changes and nothing is returned — starting a download
/// that is already running or already installed is a no-op.
pub fn start_engine_download(
    tracker: &mut DownloadTracker,
    data: &Data,
    engine_name: &String,
) -> (r: Option<GodotEngineVersion>)
    requires
        old(tracker).wf(),
    ensures
        final(tracker).wf(),
        ({
            let known = spec_first_version_index(
                data.all_godot_engine_versions.deep_view(),
                engine_name@,
                0,
            );
            let admitted = known < data.all_godot_engine_versions@.len()
                && !old(tracker).is_tracked(engine_name@) && !spec_version_listed(
                data.installed_godot_engine_versions.deep_view(),
                engine_name@,
            );
            match r {
                Some(v) => admitted && v@ == data.all_godot_engine_versions.deep_view()[known]
                    && final(tracker)@ == old(tracker)@.push((engine_name@, 0u64)),
                None => !admitted && final(tracker)@ == old(tracker)@,
            }
        }),
{
    match find_version_index(&data.all_godot_engine_versions, engine_name) {
        Some(i) => {
            if tracker.try_start(engine_name, &data.installed_godot_engine_versions) {
                Some(data.all_godot_engine_versions[i].clone())
            } else {
                proof {
                    lemma_spec_first_version_index_listed(
                        data.installed_godot_engine_versions.deep_view(),
                        engine_name@,
                    );
                }
                None
            }
        },
        None => None,
    }
}

/// Index of the first project of `projects` named `name`, or the number of
/// projects when none matches.
pub open spec fn spec_first_project_index(
    projects: Seq<ProjectDataView>,
    name: Seq<char>,
    i: int,
) -> int
    decreases projects.len() - i,
{
    if i < 0 || i >= projects.len() {
        projects.len() as int
    } else if projects[i].project_name == name {
        i
    } else {
        spec_first_project_index(projects, name, i + 1)
    }
}

proof fn lemma_first_project_index(projects: Seq<ProjectDataView>, name: Seq<char>, a: int, i: int)
    requires
        0 <= a <= i <= projects.len(),
        forall|k: int| a <= k < i ==> projects[k].project_name != name,
        i == projects.len() || projects[i].project_name == name,
    ensures
        spec_first_project_index(projects, name, a) == i,
    decreases i - a,
{
    if a < i {
        lemma_first_project_index(projects, name, a + 1, i);
    }
}

/// Index of the first project named `name`, if any.
fn find_first_project_index(projects: &Vec<ProjectData>, name: &String) -> (r: Option<usize>)
    ensures
        match r {
            Some(i) => {
                &&& 0 <= i < projects@.len()
                &&& i == spec_first_project_index(projects.deep_view(), name@, 0)
            },
            None => spec_first_project_index(projects.deep_view(), name@, 0)
                == projects@.len() as int,
        },
{
    let n = projects.len();
    let mut i: usize = 0;
    while i < n
        invariant
            n == projects@.len(),
            0 <= i <= n,
            forall|k: int| 0 <= k < i ==> projects.deep_view()[k].project_name != name@,
        decreases n - i,
    {
        if projects[i].project_name.eq(name) {
            proof {
                lemma_first_project_index(projects.deep_view(), name@, 0, i as int);
            }
            return Some(i);
        }
        i += 1;
    }
    proof {
        lemma_first_project_index(projects.deep_view(), name@, 0, n as int);
    }
    None
}

/// Assigns the installed version named `engine_name` to the first tracked
/// project named `project_name`: the project's engine field takes that
/// version's name and its engine flag goes up; when no installed version
/// carries the name, the assignment is cleared and the flag goes down. No
/// other project, directory or version on record moves.
pub fn set_engine_version_for_project(
    config: &mut ProjectConfig,
    godot_versions: &Vec<GodotEngineVersion>,
    project_name: &String,
    engine_name: &String,
)
    requires
        spec_has_name(old(config)@.tracked_projects, project_name@),
    ensures
        final(config)@.tracked_directories == old(config)@.tracked_directories,
        final(config)@.tracked_godot_versions == old(config)@.tracked_godot_versions,
        ({
            let projects = old(config)@.tracked_projects;
            let pi = spec_first_project_index(projects, project_name@, 0);
            let vi = spec_first_version_index(godot_versions.deep_view(), engine_name@, 0);
            if vi < godot_versions@.len() {
                final(config)@.tracked_projects == projects.update(
                    pi,
                    ProjectDataView {
                        engine_version: godot_versions.deep_view()[vi].version_name,
                        engine_valid: true,
                        ..projects[pi]
                    },
                )
            } else {
                final(config)@.tracked_projects == projects.update(
                    pi,
                    ProjectDataView {
                        engine_version: Seq::empty(),
                        engine_valid: false,
                        ..projects[pi]
                    },
                )
            }
        }),
{
    let pi = match find_first_project_index(&config.tracked_projects, project_name) {
        Some(pi) => pi,
        None => {
            proof {
                let w = choose|k: int|
                    0 <= k < old(config)@.tracked_projects.len() && old(
                        config,
                    )@.tracked_projects[k].project_name == project_name@;
                lemma_first_index_at_most(old(config)@.tracked_projects, project_name@, 0, w);
            }
            unreached()
        },
    };
    let mut updated = config.tracked_projects[pi].clone();
    match find_version_index(godot_versions, engine_name) {
        Some(vi) => {
            updated.engine_version = godot_versions[vi].version_name.clone();
            updated.engine_valid = true;
        },
        None => {
            updated.engine_version = String::new();
            updated.engine_valid = false;
        },
    }
    config.tracked_projects.set(pi, updated);
    proof {
        assert(config.tracked_projects.deep_view() =~= old(
            config,
        )@.tracked_projects.update(pi as int, config.tracked_projects.deep_view()[pi as int]));
    }
}

/// A first-index search never lands past a known match.
proof fn lemma_first_index_at_most(
    projects: Seq<ProjectDataView>,
    name: Seq<char>,
    a: int,
    w: int,
)
    requires
        0 <= a <= w < projects.len(),
        projects[w].project_name == name,
    ensures
        spec_first_project_index(projects, name, a) <= w,
    decreases w - a,
{
    if a < w && projects[a].project_name != name {
        lemma_first_index_at_most(projects, name, a + 1, w);
    }
}

/// Marks the first project named `project_name` as opened now: its
/// last-opened stamp becomes `timestamp`, and the project (as it was on
/// record) and its installed engine are handed back for the caller to
/// launch. When no tracked project carries the name, or its engine is not
/// among the installed versions, nothing changes and nothing is returned.
pub fn mark_project_opened(data: &mut Data, project_name: &String, timestamp: i64) -> (r: Option<
    (ProjectData, GodotEngineVersion),
>)
    ensures
        final(data).all_godot_engine_versions == old(data).all_godot_engine_versions,
        final(data).installed_godot_engine_versions == old(data).installed_godot_engine_versions,
        ({
            let projects = old(data).projects.deep_view();
            let installed = old(data).installed_godot_engine_versions.deep_view();
            let pi = spec_first_project_index(projects, project_name@, 0);
            match r {
                Some(pair) => {
                    let vi = spec_first_version_index(
                        installed,
                        projects[pi].engine_version,
                        0,
                    );
                    &&& pi < projects.len()
                    &&& pair.0@ == projects[pi]
                    &&& vi < installed.len()
                    &&& pair.1@ == installed[vi]
                    &&& final(data).projects.deep_view() == projects.update(
                        pi,
                        ProjectDataView { last_date_opened: timestamp as int, ..projects[pi] },
                    )
                },
                None => {
                    &&& final(data).projects == old(data).projects
                    &&& (pi < projects.len() ==> spec_first_version_index(
                        installed,
                        projects[pi].engine_version,
                        0,
                    ) == installed.len())
                },
            }
        }),
{
    let pi = match find_first_project_index(&data.projects, project_name) {
        Some(pi) => pi,
        None => {
            return None;
        },
    };
    let project = data.projects[pi].clone();
    let vi = match find_version_index(
        &data.installed_godot_engine_versions,
        &project.engine_version,
    ) {
        Some(vi) => vi,
        None => {
            return None;
        },
    };
    let engine = data.installed_godot_engine_versions[vi].clone();
    let mut updated = data.projects[pi].clone();
    updated.last_date_opened = timestamp;
    data.projects.set(pi, updated);
    proof {
        assert(data.projects.deep_view() =~= old(data).projects.deep_view().update(
            pi as int,
            data.projects.deep_view()[pi as int],
        ));
    }
    Some((project, engine))
}

/// The projects every tracked directory's scan yields, in tracked-directory
/// order.
pub open spec fn spec_all_projects(trees: Seq<Option<FsDir>>) -> Seq<ProjectDataView>
    decreases trees.len(),
{
    if trees.len() == 0 {
        Seq::empty()
    } else {
        let head = match trees[0] {
            Some(tree) => spec_scan(tree).map_values(|p: Seq<char>| spec_scanned_record(p)),
            None => Seq::empty(),
        };
        head + spec_all_projects(trees.drop_first())
    }
}

/// Scans every tracked directory and gathers the discovered projects, in
/// tracked-directory order. The caller hands in one listing per tracked
/// directory, in the order the document records them, with `None` for a
/// directory it could not list: an unreadable directory contributes no
/// records but never blanks the other directories' results.
pub fn get_all_projects_from_dirs(config: &ProjectConfig, trees: &Vec<Option<FsDir>>) -> (r: Vec<
    ProjectData,
>)
    requires
        trees@.len() == config.tracked_directories@.len(),
        forall|k: int|
            0 <= k < trees@.len() && (#[trigger] trees@[k]) is Some ==> trees@[k]->0.wf(),
    ensures
        r.deep_view() == spec_all_projects(trees@),
{
    let mut all_projects: Vec<ProjectData> = Vec::new();
    let n = trees.len();
    let mut i: usize = 0;
    proof {
        assert(trees@.subrange(0, n as int) =~= trees@);
        assert(all_projects.deep_view() + spec_all_projects(trees@.subrange(0, n as int))
            =~= spec_all_projects(trees@));
    }
    while i < n
        invariant
            n == trees@.len() == config.tracked_directories@.len(),
            0 <= i <= n,
            forall|k: int|
                0 <= k < trees@.len() && (#[trigger] trees@[k]) is Some ==> trees@[k]->0.wf(),
            spec_all_projects(trees@) == all_projects.deep_view() + spec_all_projects(
                trees@.subrange(i as int, n as int),
            ),
        decreases n - i,
    {
        let ghost before = all_projects.deep_view();
        let ghost rest = trees@.subrange(i as int, n as int);
        match &trees[i] {
            Some(tree) => {
                let project_service = ProjectDirectoryService::new(
                    config.tracked_directories[i].as_str(),
                );
                let mut projects = project_service.find_projects(tree);
                let ghost found = projects.deep_view();
                all_projects.append(&mut projects);
                proof {
                    assert(all_projects.deep_view() =~= before + found);
                }
            },
            None => {},
        }
        i += 1;
        proof {
            assert(rest[0] == trees@[i - 1]);
            assert(rest.drop_first() =~= trees@.subrange(i as int, n as int));
        }
    }
    proof {
        assert(trees@.subrange(n as int, n as int) =~= Seq::<Option<FsDir>>::empty());
        assert(all_projects.deep_view() =~= all_projects.deep_view() + Seq::<
            ProjectDataView,
        >::empty());
    }
    all_projects
}

/// Registers one more directory to track for projects; everything else on
/// record stays.
pub fn add_tracked_directory(config: &mut ProjectConfig, project_directory: String)
    ensures
        final(config)@.tracked_directories == old(config)@.tracked_directories.push(
            project_directory@,
        ),
        final(config)@.tracked_projects == old(config)@.tracked_projects,
        final(config)@.tracked_godot_versions == old(config)@.tracked_godot_versions,
{
    config.tracked_directories.push(project_directory);
    proof {
        assert(config.tracked_directories.deep_view() =~= old(
            config,
        )@.tracked_directories.push(config.tracked_directories.deep_view().last()));
    }
}

/// Stops tracking every directory equal to `project_directory`; the other
/// directories keep their order, and everything else on record stays.
pub fn remove_tracked_directory(config: &mut ProjectConfig, project_directory: &String)
    ensures
        final(config)@.tracked_directories == old(config)@.tracked_directories.filter(
            |d: Seq<char>| d != project_directory@,
        ),
        final(config)@.tracked_projects == old(config)@.tracked_projects,
        final(config)@.tracked_godot_versions == old(config)@.tracked_godot_versions,
{
    let ghost pred = |d: Seq<char>| d != project_directory@;
    let ghost dirs = config.tracked_directories.deep_view();
    let mut kept: Vec<String> = Vec::new();
    let mut i: usize = 0;
    proof {
        assert(dirs.subrange(0, 0).filter(pred) =~= Seq::<Seq<char>>::empty()) by {
            reveal(Seq::filter);
            assert(dirs.subrange(0, 0) =~= Seq::<Seq<char>>::empty());
        }
    }
    while i < config.tracked_directories.len()
        invariant
            pred == (|d: Seq<char>| d != project_directory@),
            dirs == config.tracked_directories.deep_view(),
            0 <= i <= dirs.len(),
            kept.deep_view() == dirs.subrange(0, i as int).filter(pred),
        decreases dirs.len() - i,
    {
        let ghost before = dirs.subrange(0, i as int);
        if !config.tracked_directories[i].eq(project_directory) {
            kept.push(config.tracked_directories[i].clone());
        }
        i += 1;
        proof {
            let after = dirs.subrange(0, i as int);
            assert(after =~= before.push(dirs[i - 1]));
            assert(after.drop_last() =~= before);
            reveal(Seq::filter);
            assert(kept.deep_view() =~= after.filter(pred));
        }
    }
    proof {
        assert(dirs.subrange(0, dirs.len() as int) =~= dirs);
    }
    config.tracked_directories = kept;
}

pub proof fn lemma_spec_first_version_index_listed(
    versions: Seq<GodotEngineVersionView>,
    name: Seq<char>,
)
    ensures
        spec_version_listed(versions, name) <==> spec_first_version_index(versions, name, 0)
            < versions.len(),
    decreases versions.len(),
{
    lemma_first_index_bounds(versions, name, 0);
}

proof fn lemma_first_index_bounds(versions: Seq<GodotEngineVersionView>, name: Seq<char>, a: int)
    requires
        0 <= a <= versions.len(),
    ensures
        a <= spec_first_version_index(versions, name, a) <= versions.len(),
        spec_first_version_index(versions, name, a) < versions.len() ==> versions[
            spec_first_version_index(versions, name, a)
        ].version_name == name,
        forall|k: int|
            a <= k < spec_first_version_index(versions, name, a) ==> versions[k].version_name
                != name,
    decreases versions.len() - a,
{
    if a < versions.len() && versions[a].version_name != name {
        lemma_first_index_bounds(versions, name, a + 1);
    }
}


} // verus!
