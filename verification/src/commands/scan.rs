//! Scanning a directory tree for projects.

use crate::commands::project_builder::{built_record, DirectoryFacts, ManifestInfo};
use crate::text::str_eq;
use crate::types::path::ProjectPath;
use crate::types::project::{path_views, project_views, ProjectView, RustProject};
use crate::types::registry::ProjectRegistry;
use crate::types::registry_state::{
    batch_lies_below, discovered_views, DiscoveredProject, DiscoveredView, RegistryState,
};
use crate::types::values::Timestamp;
use vstd::prelude::*;

verus! {

/// How deep below its root a scan looks.
pub const MAX_SCAN_DEPTH: usize = 10;

/// How many threads walk the tree where the machine does not say how many
/// it can run at once.
pub const FALLBACK_WALKER_THREADS: usize = 8;

/// Whether a directory called `name` is never entered: dependency caches,
/// build output, version-control metadata and editor state.
pub open spec fn skipped_directory_name(name: Seq<char>) -> bool {
    ||| name == "node_modules"@
    ||| name == ".git"@
    ||| name == ".svn"@
    ||| name == "__pycache__"@
    ||| name == ".vscode"@
    ||| name == ".idea"@
    ||| name == ".venv"@
    ||| name == "build"@
    ||| name == "dist"@
    ||| name == "out"@
    ||| name == "target"@
}

/// Whether a directory called `name` is never entered.
pub fn is_skipped_directory(name: &str) -> (r: bool)
    ensures
        r == skipped_directory_name(name@),
{
    str_eq(name, "node_modules") || str_eq(name, ".git") || str_eq(name, ".svn") || str_eq(
        name,
        "__pycache__",
    ) || str_eq(name, ".vscode") || str_eq(name, ".idea") || str_eq(name, ".venv") || str_eq(
        name,
        "build",
    ) || str_eq(name, "dist") || str_eq(name, "out") || str_eq(name, "target")
}

/// Whether the walk visits an entry: every file, and every directory that is
/// not skipped by its name.
pub fn should_visit(file_name: &str, is_dir: bool) -> (r: bool)
    ensures
        r == (!is_dir || !skipped_directory_name(file_name@)),
{
    if is_dir {
        !is_skipped_directory(file_name)
    } else {
        true
    }
}

/// How the tree is walked: what the walker is set to before it runs.
#[derive(Debug, Clone, Copy, PartialEq, Eq, Structural)]
pub struct ScanSettings {
    /// Entries deeper than this below the root are not visited.
    pub max_depth: usize,
    /// Whether the ignore files of version control are honoured.
    pub git_ignore: bool,
    /// Whether the user's global ignore file is honoured.
    pub git_global: bool,
    /// Whether a repository's private exclude file is honoured.
    pub git_exclude: bool,
    /// Whether hidden files and directories are left out.
    pub skip_hidden: bool,
    /// How many threads walk the tree.
    pub threads: usize,
}

impl ScanSettings {
    /// The threads to walk with: twice what the machine can run at once, or
    /// the fallback where that is not known.
    pub open spec fn threads_for(available: Option<usize>) -> int {
        match available {
            Some(n) => if n * 2 <= usize::MAX {
                n * 2
            } else {
                usize::MAX as int
            },
            None => FALLBACK_WALKER_THREADS as int,
        }
    }

    /// The settings of a scan on a machine that can run `available` threads
    /// at once: ignore files of version control are honoured, hidden entries
    /// are visited, and the walk stops `MAX_SCAN_DEPTH` levels down.
    pub fn for_parallelism(available: Option<usize>) -> (r: ScanSettings)
        ensures
            r.max_depth == MAX_SCAN_DEPTH,
            r.git_ignore,
            !r.git_global,
            !r.git_exclude,
            !r.skip_hidden,
            r.threads == Self::threads_for(available),
    {
        let threads: usize = match available {
            Some(n) => if n <= usize::MAX / 2 {
                n * 2
            } else {
                usize::MAX
            },
            None => FALLBACK_WALKER_THREADS,
        };
        ScanSettings {
            max_depth: MAX_SCAN_DEPTH,
            git_ignore: true,
            git_global: false,
            git_exclude: false,
            skip_hidden: false,
            threads,
        }
    }
}

/// An entry that the walk reported.
#[derive(Debug)]
pub struct WalkEntry {
    pub path: ProjectPath,
    pub is_file: bool,
}

/// What a walked entry holds, as mathematical values.
pub struct WalkEntryView {
    pub path: Seq<Seq<char>>,
    pub is_file: bool,
}

impl View for WalkEntry {
    type V = WalkEntryView;

    open spec fn view(&self) -> WalkEntryView {
        WalkEntryView { path: self.path@, is_file: self.is_file }
    }
}

/// The entries of a list, as mathematical values.
pub open spec fn walk_views(entries: Seq<WalkEntry>) -> Seq<WalkEntryView> {
    Seq::new(entries.len(), |i: int| entries[i]@)
}

/// The project directory that an entry announces: the directory of a file
/// called `Cargo.toml`.
pub open spec fn announced_directory(entry: WalkEntryView) -> Option<Seq<Seq<char>>> {
    if entry.is_file && entry.path.len() > 0 && entry.path.last() == "Cargo.toml"@ {
        Some(entry.path.drop_last())
    } else {
        None
    }
}

/// The project directories that a walk announces, each once, in the order
/// in which they first appear.
pub open spec fn announced_directories(entries: Seq<WalkEntryView>) -> Seq<Seq<Seq<char>>>
    decreases entries.len(),
{
    if entries.len() == 0 {
        Seq::empty()
    } else {
        let before = announced_directories(entries.drop_last());
        match announced_directory(entries.last()) {
            Some(dir) => if before.contains(dir) {
                before
            } else {
                before.push(dir)
            },
            None => before,
        }
    }
}

/// The project directory that `entry` announces.
pub fn project_directory(entry: &WalkEntry) -> (r: Option<ProjectPath>)
    ensures
        match r {
            Some(dir) => announced_directory(entry@) == Some(dir@),
            None => announced_directory(entry@) is None,
        },
{
    if !entry.is_file {
        return None;
    }
    match entry.path.file_name() {
        Some(name) => if str_eq(name.as_str(), "Cargo.toml") {
            entry.path.parent()
        } else {
            None
        },
        None => None,
    }
}

/// Whether `paths` holds `path`.
pub fn contains_path(paths: &Vec<ProjectPath>, path: &ProjectPath) -> (r: bool)
    ensures
        r == path_views(paths@).contains(path@),
{
    let mut i: usize = 0;
    while i < paths.len()
        invariant
            i <= paths.len(),
            forall|k: int| 0 <= k < i ==> path_views(paths@)[k] != path@,
        decreases paths.len() - i,
    {
        if paths[i].same_as(path) {
            assert(path_views(paths@)[i as int] == path@);
            return true;
        }
        i += 1;
    }
    false
}

/// The directories that directly hold a manifest, going by the entries that
/// a walk reported: each directory once, in the order of first appearance.
pub fn collect_project_paths(entries: &Vec<WalkEntry>) -> (r: Vec<ProjectPath>)
    ensures
        path_views(r@) == announced_directories(walk_views(entries@)),
        path_views(r@).no_duplicates(),
{
    let ghost views = walk_views(entries@);
    let mut out: Vec<ProjectPath> = Vec::new();
    let mut i: usize = 0;
    assert(views.take(0) =~= Seq::<WalkEntryView>::empty());
    assert(path_views(out@) =~= Seq::<Seq<Seq<char>>>::empty());
    while i < entries.len()
        invariant
            i <= entries.len(),
            views == walk_views(entries@),
            path_views(out@) == announced_directories(views.take(i as int)),
            path_views(out@).no_duplicates(),
        decreases entries.len() - i,
    {
        let ghost seen = path_views(out@);
        assert(views.take(i + 1).drop_last() =~= views.take(i as int));
        assert(views.take(i + 1).last() == entries@[i as int]@);
        match project_directory(&entries[i]) {
            Some(dir) => {
                if !contains_path(&out, &dir) {
                    out.push(dir);
                    assert(path_views(out@) =~= seen.push(dir@));
                }
            },
            None => {},
        }
        i += 1;
    }
    assert(views.take(views.len() as int) =~= views);
    out
}

/// The candidates of a scan, split by whether the registry holds them.
#[derive(Debug)]
pub struct ScanPlan {
    /// The candidates that are not registered yet, in their order.
    pub new_paths: Vec<ProjectPath>,
    /// The candidates that are registered already, in their order.
    pub existing: Vec<ProjectPath>,
}

/// The candidates under which `projects` holds nothing.
pub open spec fn new_candidates(
    projects: Map<Seq<Seq<char>>, ProjectView>,
    candidates: Seq<Seq<Seq<char>>>,
) -> Seq<Seq<Seq<char>>> {
    candidates.filter(|p: Seq<Seq<char>>| !projects.contains_key(p))
}

/// The candidates under which `projects` holds a project.
pub open spec fn known_candidates(
    projects: Map<Seq<Seq<char>>, ProjectView>,
    candidates: Seq<Seq<Seq<char>>>,
) -> Seq<Seq<Seq<char>>> {
    candidates.filter(|p: Seq<Seq<char>>| projects.contains_key(p))
}

/// Splits the candidate directories of a scan into those that are new to
/// the registry and those that it holds already, by their exact path.
pub fn partition_candidates(registry: &ProjectRegistry, candidates: Vec<ProjectPath>) -> (r:
    ScanPlan)
    requires
        registry.wf(),
    ensures
        path_views(r.new_paths@) == new_candidates(registry.by_path(), path_views(candidates@)),
        path_views(r.existing@) == known_candidates(registry.by_path(), path_views(candidates@)),
{
    let ghost all = path_views(candidates@);
    let ghost is_new = |p: Seq<Seq<char>>| !registry.by_path().contains_key(p);
    let ghost is_known = |p: Seq<Seq<char>>| registry.by_path().contains_key(p);
    let mut new_paths: Vec<ProjectPath> = Vec::new();
    let mut existing: Vec<ProjectPath> = Vec::new();
    proof {
        reveal(Seq::filter);
        assert(all.take(0) =~= Seq::<Seq<Seq<char>>>::empty());
        assert(path_views(new_paths@) =~= Seq::<Seq<Seq<char>>>::empty());
        assert(path_views(existing@) =~= Seq::<Seq<Seq<char>>>::empty());
    }
    for candidate in it: candidates
        invariant
            registry.wf(),
            all == path_views(it.seq()),
            is_new == |p: Seq<Seq<char>>| !registry.by_path().contains_key(p),
            is_known == |p: Seq<Seq<char>>| registry.by_path().contains_key(p),
            path_views(new_paths@) == all.take(it.index() as int).filter(is_new),
            path_views(existing@) == all.take(it.index() as int).filter(is_known),
    {
        let ghost fresh = path_views(new_paths@);
        let ghost known = path_views(existing@);
        proof {
            let done = all.take(it.index() as int);
            done.lemma_filter_push(candidate@, is_new);
            done.lemma_filter_push(candidate@, is_known);
            assert(done.push(candidate@) =~= all.take(it.index() + 1));
        }
        if registry.contains_path(&candidate) {
            existing.push(candidate);
            assert(path_views(existing@) =~= known.push(candidate@));
        } else {
            new_paths.push(candidate);
            assert(path_views(new_paths@) =~= fresh.push(candidate@));
        }
    }
    assert(all.take(all.len() as int) =~= all);
    ScanPlan { new_paths, existing }
}

/// What a scan found and stored.
#[derive(Debug)]
pub struct ScanResult {
    pub found_projects: Vec<RustProject>,
    pub added_count: usize,
}

impl ScanResult {
    /// The result of a scan that stored `found_projects`.
    pub fn from(found_projects: Vec<RustProject>) -> (r: Self)
        ensures
            r.found_projects == found_projects,
            r.added_count == found_projects@.len(),
    {
        ScanResult { added_count: found_projects.len(), found_projects }
    }
}

/// The project records of a batch.
pub open spec fn batch_projects(batch: Seq<DiscoveredView>) -> Seq<ProjectView> {
    Seq::new(batch.len(), |i: int| batch[i].project)
}

/// The projects that were built, out of one outcome for each new path: a
/// path whose project could not be built gives `None` and is left out.
pub fn process_projects(outcomes: Vec<Option<DiscoveredProject>>) -> (r: Vec<DiscoveredProject>)
    ensures
        r@ == outcomes@.filter_map(|o: Option<DiscoveredProject>| o),
{
    let ghost keep = |o: Option<DiscoveredProject>| o;
    let ghost total = outcomes@;
    let mut out: Vec<DiscoveredProject> = Vec::new();
    assert(total.take(0) =~= Seq::<Option<DiscoveredProject>>::empty());
    for outcome in it: outcomes
        invariant
            total == it.seq(),
            keep == |o: Option<DiscoveredProject>| o,
            out@ == total.take(it.index() as int).filter_map(keep),
    {
        proof {
            total.lemma_filter_map_take_succ(keep, it.index() as int);
        }
        if let Some(found) = outcome {
            out.push(found);
        }
    }
    assert(total.take(total.len() as int) =~= total);
    out
}

/// Ends a scan: stores the projects that were built, all in one batch and in
/// their order, and reports them. With nothing built the registry stays as
/// it is.
pub fn record_scan(registry: &mut ProjectRegistry, built: Vec<DiscoveredProject>) -> (r:
    ScanResult)
    requires
        old(registry).wf(),
        old(registry).next_id_value() + built@.len() <= u32::MAX,
        batch_lies_below(discovered_views(built@)),
    ensures
        final(registry).wf(),
        final(registry).state() == old(registry).state().add_all(discovered_views(built@)),
        built@.len() == 0 ==> final(registry).last_updated_value()
            == old(registry).last_updated_value(),
        project_views(r.found_projects@) == batch_projects(discovered_views(built@)),
        r.added_count == built@.len(),
{
    let mut found: Vec<RustProject> = Vec::new();
    let mut i: usize = 0;
    while i < built.len()
        invariant
            i <= built.len(),
            found@.len() == i,
            forall|k: int| 0 <= k < i ==> found@[k]@ == built@[k].project@,
        decreases built.len() - i,
    {
        found.push(built[i].project.clone());
        i += 1;
    }
    assert(project_views(found@) =~= batch_projects(discovered_views(built@)));
    if built.len() > 0 {
        registry.add_projects(built);
    }
    ScanResult::from(found)
}

/// A second scan of an unchanged tree finds nothing new: once a batch was
/// stored, no candidate is new that was registered before or was part of
/// the batch.
pub proof fn lemma_rescan_finds_nothing_new(
    state: RegistryState,
    batch: Seq<DiscoveredView>,
    candidates: Seq<Seq<Seq<char>>>,
)
    requires
        forall|i: int|
            0 <= i < candidates.len() ==> state.projects.contains_key(#[trigger] candidates[i])
                || exists|j: int| 0 <= j < batch.len() && (#[trigger] batch[j]).project.path
                    == candidates[i],
    ensures
        new_candidates(state.add_all(batch).projects, candidates) == Seq::<Seq<Seq<char>>>::empty(),
        state.add_all(batch).add_all(Seq::empty()) == state.add_all(batch),
{
    let after = state.add_all(batch);
    let is_new = |p: Seq<Seq<char>>| !after.projects.contains_key(p);
    assert forall|i: int| 0 <= i < candidates.len() implies !is_new(#[trigger] candidates[i]) by {
        if state.projects.contains_key(candidates[i]) {
            state.lemma_add_all_keeps_projects(batch, candidates[i]);
        } else {
            let j = choose|j: int|
                0 <= j < batch.len() && (#[trigger] batch[j]).project.path == candidates[i];
            state.lemma_added_are_registered(batch, j);
        }
    }
    candidates.lemma_all_neg_filter_empty(is_new);
}

/// A scan that finds a lone package in a directory that is not registered
/// adds one project: the package's record, under the next identity. A second
/// scan finds the directory registered.
pub proof fn lemma_scan_adds_found_package(
    state: RegistryState,
    path: Seq<Seq<char>>,
    manifest: ManifestInfo,
    facts: DirectoryFacts,
    below: Seq<Seq<Seq<char>>>,
    now: Timestamp,
)
    requires
        !state.projects.contains_key(path),
        manifest.root_package is Some,
        manifest.workspace_member_count == 0,
        facts.manifest_modified is Ok,
    ensures
        new_candidates(state.projects, seq![path]) == seq![path],
        built_record(path, Some(manifest), facts, now) is Some,
        built_record(path, Some(manifest), facts, now)->0.name == manifest.root_package->0.name@,
        built_record(path, Some(manifest), facts, now)->0.path == path,
        ({
            let built = built_record(path, Some(manifest), facts, now)->0;
            let after = state.add_all(seq![DiscoveredView { project: built, below }]);
            &&& after.projects.dom() == state.projects.dom().insert(path)
            &&& after.projects[path] == built.with_id(state.next_id as u32)
            &&& after.next_id == state.next_id + 1
            &&& new_candidates(after.projects, seq![path]) == Seq::<Seq<Seq<char>>>::empty()
        }),
{
    let built = built_record(path, Some(manifest), facts, now)->0;
    let batch = seq![DiscoveredView { project: built, below }];
    let after = state.add_all(batch);
    let is_new = |p: Seq<Seq<char>>| !state.projects.contains_key(p);
    let still_new = |p: Seq<Seq<char>>| !after.projects.contains_key(p);
    let one = seq![path];
    reveal(Seq::filter);
    assert(one.drop_last() =~= Seq::<Seq<Seq<char>>>::empty());
    assert(one.last() == path);
    assert(one.drop_last().filter(is_new) =~= Seq::<Seq<Seq<char>>>::empty());
    assert(one.filter(is_new) =~= seq![path]);
    assert(batch.drop_last() =~= Seq::<DiscoveredView>::empty());
    assert(state.add_all(batch.drop_last()) == state);
    assert(after == state.add(built, below));
    assert(after.projects.dom() =~= state.projects.dom().insert(path));
    assert(one.drop_last().filter(still_new) =~= Seq::<Seq<Seq<char>>>::empty());
    assert(one.filter(still_new) =~= Seq::<Seq<Seq<char>>>::empty());
}

} // verus!
