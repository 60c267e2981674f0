//! The registry of tracked projects and its path index.

use crate::external::current_time;
use crate::types::errors::ProjectsError;
use crate::types::keyed::{
    has_key, keyed_map, lemma_keyed_map_at, lemma_keyed_map_empty, lemma_keyed_map_push,
    lemma_keyed_map_remove, lemma_keyed_map_update, position_of, unique_keys,
};
use crate::types::path::ProjectPath;
use crate::types::path_index::{
    all_below, entries_below_roots, entry_path, entry_views, index_map, index_remove_root,
    index_upsert, lemma_entries_below_roots, lemma_index_map_at, lemma_reindexed_keeps_ancestors,
    nearest_indexed_root, paths_lie_below, refiled, reindexed, roots_are_ancestors, IndexEntry,
    IndexEntryView,
};
use crate::types::project::{path_views, project_views, ProjectView, RustProject};
use crate::types::registry_state::{
    batch_lies_below, discovered_views, DiscoveredProject, DiscoveredView, RegistryState,
};
use crate::types::values::{ProjectId, Timestamp, WatcherName};
use crate::types::watchers::WatcherRegistry;
use vstd::prelude::*;
use vstd::string::StringExecFns;

verus! {

/// The key of a project record: its path.
pub open spec fn path_of() -> spec_fn(ProjectView) -> Seq<Seq<char>> {
    |p: ProjectView| p.path
}

/// The identity of a project record.
pub open spec fn id_of() -> spec_fn(ProjectView) -> u32 {
    |p: ProjectView| p.id
}

/// Whether some project has the identity `id`.
pub open spec fn has_id(projects: Map<Seq<Seq<char>>, ProjectView>, id: u32) -> bool {
    exists|p: Seq<Seq<char>>| projects.contains_key(p) && (#[trigger] projects[p]).id == id
}

/// The path of a project with the identity `id`.
pub open spec fn path_with_id(projects: Map<Seq<Seq<char>>, ProjectView>, id: u32) -> Seq<
    Seq<char>,
> {
    choose|p: Seq<Seq<char>>| projects.contains_key(p) && (#[trigger] projects[p]).id == id
}

/// The registered projects, each under its path, with a snapshot of the paths
/// below each project.
#[derive(Debug)]
pub struct ProjectRegistry {
    projects: Vec<RustProject>,
    path_index: Vec<IndexEntry>,
    last_updated: Timestamp,
    next_id: ProjectId,
}

impl ProjectRegistry {
    /// The project records, in the order in which they are stored.
    pub closed spec fn records(&self) -> Seq<ProjectView> {
        project_views(self.projects@)
    }

    /// The entries of the path index, in the order in which they are stored.
    pub closed spec fn index_entries(&self) -> Seq<IndexEntryView> {
        entry_views(self.path_index@)
    }

    /// The identity that the next new project gets.
    pub closed spec fn next_id_value(&self) -> u32 {
        self.next_id@
    }

    /// When the registry last changed.
    pub closed spec fn last_updated_value(&self) -> Timestamp {
        self.last_updated
    }

    /// The projects of the registry: from each project's path to its record.
    pub open spec fn by_path(&self) -> Map<Seq<Seq<char>>, ProjectView> {
        keyed_map(self.records(), path_of())
    }

    /// The path index: from each indexed path to the root of its project.
    pub open spec fn index(&self) -> Map<Seq<Seq<char>>, Seq<Seq<char>>> {
        index_map(self.index_entries())
    }

    /// What holds of every registry: no path is registered twice, no
    /// identity is given twice, every identity is below the next one to
    /// give, no path is indexed twice, and every indexed path is the root it
    /// is filed under or lies below that root.
    pub open spec fn wf(&self) -> bool {
        &&& unique_keys(self.records(), path_of())
        &&& unique_keys(self.records(), id_of())
        &&& forall|i: int|
            0 <= i < self.records().len() ==> (#[trigger] self.records()[i]).id
                < self.next_id_value()
        &&& unique_keys(self.index_entries(), entry_path())
        &&& roots_are_ancestors(self.index())
    }

    /// What the registry holds, apart from the time of its last change.
    pub open spec fn state(&self) -> RegistryState {
        RegistryState {
            projects: self.by_path(),
            index: self.index(),
            next_id: self.next_id_value() as int,
        }
    }

    /// The project that owns `path`, going by the index.
    pub open spec fn owner(&self, path: Seq<Seq<char>>) -> Option<ProjectView> {
        self.state().owner(path)
    }

    /// The project filed under exactly `path` in the index.
    pub open spec fn indexed_project(&self, path: Seq<Seq<char>>) -> Option<ProjectView> {
        self.state().indexed_project(path)
    }

    /// An empty registry, stamped `now`, whose first project gets identity 1.
    pub fn new_at(now: Timestamp) -> (r: Self)
        ensures
            r.wf(),
            r.records() == Seq::<ProjectView>::empty(),
            r.index_entries() == Seq::<IndexEntryView>::empty(),
            r.by_path() == Map::<Seq<Seq<char>>, ProjectView>::empty(),
            r.index() == Map::<Seq<Seq<char>>, Seq<Seq<char>>>::empty(),
            r.next_id_value() == 1,
            r.last_updated_value() == now,
    {
        let r = ProjectRegistry {
            projects: Vec::new(),
            path_index: Vec::new(),
            last_updated: now,
            next_id: ProjectId::new(1),
        };
        proof {
            assert(r.records() =~= Seq::<ProjectView>::empty());
            assert(r.index_entries() =~= Seq::<IndexEntryView>::empty());
            lemma_keyed_map_empty::<ProjectView, Seq<Seq<char>>>(path_of());
            lemma_keyed_map_empty::<IndexEntryView, Seq<Seq<char>>>(entry_path());
            assert(r.index() =~= Map::<Seq<Seq<char>>, Seq<Seq<char>>>::empty());
        }
        r
    }

    /// An empty registry, stamped with the current time.
    pub fn new() -> (r: Self)
        ensures
            r.wf(),
            r.records() == Seq::<ProjectView>::empty(),
            r.index_entries() == Seq::<IndexEntryView>::empty(),
            r.by_path() == Map::<Seq<Seq<char>>, ProjectView>::empty(),
            r.index() == Map::<Seq<Seq<char>>, Seq<Seq<char>>>::empty(),
            r.next_id_value() == 1,
    {
        Self::new_at(current_time())
    }

    /// The project records, in the order in which they are stored.
    pub fn projects(&self) -> (r: &Vec<RustProject>)
        ensures
            project_views(r@) == self.records(),
    {
        &self.projects
    }

    /// The entries of the path index.
    pub fn path_index(&self) -> (r: &Vec<IndexEntry>)
        ensures
            entry_views(r@) == self.index_entries(),
    {
        &self.path_index
    }

    pub fn last_updated(&self) -> (r: Timestamp)
        ensures
            r == self.last_updated_value(),
    {
        self.last_updated
    }

    pub fn next_id(&self) -> (r: ProjectId)
        ensures
            r@ == self.next_id_value(),
    {
        self.next_id
    }

    /// Number of registered projects.
    pub fn len(&self) -> (r: usize)
        ensures
            r == self.records().len(),
    {
        self.projects.len()
    }

    /// Where the project at `path` is stored.
    fn position(&self, path: &ProjectPath) -> (r: Option<usize>)
        ensures
            match r {
                Some(i) => i < self.records().len() && self.records()[i as int].path == path@,
                None => !has_key(self.records(), path_of(), path@),
            },
    {
        position_in(&self.projects, path)
    }

    /// Whether a project is registered under exactly `path`.
    pub fn contains_path(&self, path: &ProjectPath) -> (r: bool)
        requires
            self.wf(),
        ensures
            r == self.by_path().contains_key(path@),
    {
        match self.position(path) {
            Some(i) => {
                proof {
                    lemma_keyed_map_at(self.records(), path_of(), i as int);
                }
                true
            },
            None => false,
        }
    }

    /// The project registered under exactly `path`.
    pub fn get(&self, path: &ProjectPath) -> (r: Option<&RustProject>)
        requires
            self.wf(),
        ensures
            match r {
                Some(p) => self.by_path().contains_key(path@) && p@ == self.by_path()[path@],
                None => !self.by_path().contains_key(path@),
            },
    {
        match self.position(path) {
            Some(i) => {
                proof {
                    lemma_keyed_map_at(self.records(), path_of(), i as int);
                }
                Some(&self.projects[i])
            },
            None => None,
        }
    }
}

impl ProjectRegistry {
    /// Whether a project at `path` can be stored: it is registered already,
    /// or an identity is left for it.
    pub open spec fn can_add(&self, path: Seq<Seq<char>>) -> bool {
        self.by_path().contains_key(path) || self.next_id_value() < u32::MAX
    }

    /// Whether a project at `path` can be stored.
    pub fn can_add_path(&self, path: &ProjectPath) -> (r: bool)
        requires
            self.wf(),
        ensures
            r == self.can_add(path@),
    {
        self.next_id.get() < u32::MAX || self.contains_path(path)
    }

    /// Whether identities are left for `count` new projects.
    pub fn has_room_for(&self, count: usize) -> (r: bool)
        ensures
            r == (self.next_id_value() + count <= u32::MAX),
    {
        count <= u32::MAX as usize && count as u64 + self.next_id.get() as u64 <= u32::MAX as u64
    }

    /// Stores `project` under its path, at the time `now`.
    ///
    /// A project that is new to the registry gets the next identity; one
    /// that replaces a registered project keeps that project's identity. The
    /// part of the path index that points to the project is rebuilt from
    /// `descendants`, the paths that lie below the project's directory.
    pub fn add_project_at(
        &mut self,
        project: RustProject,
        descendants: &Vec<ProjectPath>,
        now: Timestamp,
    )
        requires
            old(self).wf(),
            old(self).can_add(project.path@),
            all_below(project.path@, path_views(descendants@)),
        ensures
            final(self).wf(),
            final(self).state() == old(self).state().add(project@, path_views(descendants@)),
            final(self).last_updated_value() == now,
            final(self).index().contains_key(project.path@),
            final(self).index()[project.path@] == project.path@,
            forall|i: int|
                0 <= i < descendants@.len() ==> final(self).index().contains_key(
                    #[trigger] descendants@[i]@,
                ) && final(self).index()[descendants@[i]@] == project.path@,
    {
        let ghost before = *self;
        let ghost root = project.path@;
        let ghost below = path_views(descendants@);
        let mut project = project;
        proof {
            lemma_reindexed_keeps_ancestors(before.index(), root, below);
        }

        index_remove_root(&mut self.path_index, &project.path);
        let mut i: usize = 0;
        while i < descendants.len()
            invariant
                i <= descendants.len(),
                root == project.path@,
                below == path_views(descendants@),
                unique_keys(entry_views(self.path_index@), entry_path()),
                index_map(entry_views(self.path_index@)) == refiled(
                    before.index(),
                    root,
                    below.take(i as int),
                ),
                self.projects == before.projects,
                self.next_id == before.next_id,
            decreases descendants.len() - i,
        {
            index_upsert(&mut self.path_index, descendants[i].clone(), project.path.clone());
            proof {
                let shorter = below.take(i as int);
                let longer = below.take(i + 1);
                assert(longer =~= shorter.push(below[i as int]));
                assert forall|k: Seq<Seq<char>>| longer.contains(k) <==> (shorter.contains(k) || k
                    == below[i as int]) by {
                    if shorter.contains(k) {
                        let j = choose|j: int| 0 <= j < shorter.len() && shorter[j] == k;
                        assert(longer[j] == k);
                    }
                    assert(longer[i as int] == below[i as int]);
                }
                assert(refiled(before.index(), root, shorter).insert(below[i as int], root)
                    =~= refiled(before.index(), root, longer));
            }
            i += 1;
        }
        index_upsert(&mut self.path_index, project.path.clone(), project.path.clone());
        proof {
            assert(below.take(below.len() as int) =~= below);
            let longer = below.push(root);
            assert forall|k: Seq<Seq<char>>| longer.contains(k) <==> (below.contains(k) || k
                == root) by {
                if below.contains(k) {
                    let j = choose|j: int| 0 <= j < below.len() && below[j] == k;
                    assert(longer[j] == k);
                }
                assert(longer[below.len() as int] == root);
            }
            assert(refiled(before.index(), root, below).insert(root, root) =~= reindexed(
                before.index(),
                root,
                below,
            ));
            assert forall|j: int| 0 <= j < descendants@.len() implies longer.contains(
                #[trigger] descendants@[j]@,
            ) by {
                assert(longer[j] == descendants@[j]@);
            }
        }

        match self.position(&project.path) {
            Some(at) => {
                proof {
                    lemma_keyed_map_at(before.records(), path_of(), at as int);
                }
                project.id = self.projects[at].id;
                let ghost stored = project@;
                proof {
                    lemma_keyed_map_update(before.records(), path_of(), at as int, stored);
                }
                self.projects[at] = project;
                proof {
                    assert(self.records() =~= before.records().update(at as int, stored));
                    assert forall|a: int, b: int|
                        0 <= a < b < self.records().len() implies #[trigger] id_of()(
                        self.records()[a],
                    ) != #[trigger] id_of()(self.records()[b]) by {
                        assert(id_of()(self.records()[a]) == id_of()(before.records()[a]));
                        assert(id_of()(self.records()[b]) == id_of()(before.records()[b]));
                    }
                    assert forall|a: int| 0 <= a < self.records().len() implies (
                    #[trigger] self.records()[a]).id < self.next_id_value() by {
                        assert(self.records()[a].id == before.records()[a].id);
                    }
                }
            },
            None => {
                project.id = self.next_id;
                self.next_id = self.next_id.next();
                let ghost stored = project@;
                proof {
                    lemma_keyed_map_push(before.records(), path_of(), stored);
                }
                self.projects.push(project);
                proof {
                    assert(self.records() =~= before.records().push(stored));
                    assert forall|a: int, b: int|
                        0 <= a < b < self.records().len() implies #[trigger] id_of()(
                        self.records()[a],
                    ) != #[trigger] id_of()(self.records()[b]) by {
                        if b == before.records().len() {
                            assert(self.records()[a] == before.records()[a]);
                            assert(before.records()[a].id < before.next_id_value());
                        } else {
                            assert(id_of()(before.records()[a]) != id_of()(before.records()[b]));
                        }
                    }
                    assert forall|a: int| 0 <= a < self.records().len() implies (
                    #[trigger] self.records()[a]).id < self.next_id_value() by {
                        if a < before.records().len() {
                            assert(self.records()[a] == before.records()[a]);
                        }
                    }
                }
            },
        }
        self.last_updated = now;
    }

    /// Stores `project` as `add_project_at` does, provided that it can be
    /// stored: an identity is left for it or it is registered already, and
    /// each of `descendants` lies at or below its path. Says whether the
    /// project was stored; where it was not, the registry stays as it is.
    pub fn try_add_project_at(
        &mut self,
        project: RustProject,
        descendants: &Vec<ProjectPath>,
        now: Timestamp,
    ) -> (stored: bool)
        requires
            old(self).wf(),
        ensures
            final(self).wf(),
            stored == (old(self).can_add(project.path@) && all_below(
                project.path@,
                path_views(descendants@),
            )),
            stored ==> final(self).state() == old(self).state().add(
                project@,
                path_views(descendants@),
            ) && final(self).last_updated_value() == now,
            stored ==> final(self).index().contains_key(project.path@) && final(self).index()[
                project.path@
            ] == project.path@,
            stored ==> forall|i: int|
                0 <= i < descendants@.len() ==> final(self).index().contains_key(
                    #[trigger] descendants@[i]@,
                ) && final(self).index()[descendants@[i]@] == project.path@,
            !stored ==> final(self).state() == old(self).state()
                && final(self).last_updated_value() == old(self).last_updated_value(),
    {
        if self.can_add_path(&project.path) && paths_lie_below(&project.path, descendants) {
            self.add_project_at(project, descendants, now);
            true
        } else {
            false
        }
    }

    /// Stores `project` under its path, stamped with the current time. See
    /// `add_project_at` for what is stored.
    pub fn add_project(&mut self, project: RustProject, descendants: &Vec<ProjectPath>)
        requires
            old(self).wf(),
            old(self).can_add(project.path@),
            all_below(project.path@, path_views(descendants@)),
        ensures
            final(self).wf(),
            final(self).state() == old(self).state().add(project@, path_views(descendants@)),
    {
        self.add_project_at(project, descendants, current_time());
    }
}

impl ProjectRegistry {
    /// Where the first `n` components of `path` are filed in the index.
    fn indexed_prefix(&self, path: &ProjectPath, n: usize) -> (r: Option<usize>)
        requires
            self.wf(),
            n <= path@.len(),
        ensures
            match r {
                Some(i) => i < self.index_entries().len() && self.index().contains_key(
                    path@.take(n as int),
                ) && self.index()[path@.take(n as int)] == self.index_entries()[i as int].root,
                None => !self.index().contains_key(path@.take(n as int)),
            },
    {
        let mut i: usize = 0;
        while i < self.path_index.len()
            invariant
                self.wf(),
                i <= self.path_index.len(),
                n <= path@.len(),
                forall|k: int| 0 <= k < i ==> self.index_entries()[k].path != path@.take(n as int),
            decreases self.path_index.len() - i,
        {
            if self.path_index[i].path.equals_prefix(path, n) {
                proof {
                    lemma_index_map_at(self.index_entries(), i as int);
                }
                return Some(i);
            }
            i += 1;
        }
        assert forall|k: int| 0 <= k < self.index_entries().len() implies #[trigger] entry_path()(
            self.index_entries()[k],
        ) != path@.take(n as int) by {}
        None
    }

    /// The project under which exactly `path` is filed in the index.
    pub fn find_by_path(&self, path: &ProjectPath) -> (r: Option<RustProject>)
        requires
            self.wf(),
        ensures
            match r {
                Some(p) => self.indexed_project(path@) == Some(p@),
                None => self.indexed_project(path@) is None,
            },
    {
        assert(path@.take(path@.len() as int) =~= path@);
        match self.indexed_prefix(path, path.len()) {
            Some(i) => match self.get(&self.path_index[i].root) {
                Some(p) => Some(p.clone()),
                None => None,
            },
            None => None,
        }
    }

    /// The project whose directory contains `path`, going by the index: the
    /// nearest ancestor of `path` that is indexed decides. A project that is
    /// found is registered at `path` or above it.
    pub fn find_containing_project(&self, path: &ProjectPath) -> (r: Option<RustProject>)
        requires
            self.wf(),
        ensures
            match r {
                Some(p) => {
                    &&& self.owner(path@) == Some(p@)
                    &&& self.by_path().contains_key(p@.path)
                    &&& self.by_path()[p@.path] == p@
                    &&& p@.path.is_prefix_of(path@)
                },
                None => self.owner(path@) is None,
            },
    {
        let r = self.nearest_owner(path);
        proof {
            self.state().lemma_owner_is_ancestor(path@);
            self.lemma_identities_distinct();
        }
        r
    }

    /// The project under whose root the nearest indexed ancestor of `path`
    /// is filed.
    fn nearest_owner(&self, path: &ProjectPath) -> (r: Option<RustProject>)
        requires
            self.wf(),
        ensures
            match r {
                Some(p) => self.owner(path@) == Some(p@),
                None => self.owner(path@) is None,
            },
    {
        let mut n: usize = path.len();
        while n > 0
            invariant
                self.wf(),
                n <= path@.len(),
                nearest_indexed_root(self.index(), path@, path@.len()) == nearest_indexed_root(
                    self.index(),
                    path@,
                    n as nat,
                ),
            decreases n,
        {
            match self.indexed_prefix(path, n) {
                Some(i) => {
                    return match self.get(&self.path_index[i].root) {
                        Some(p) => Some(p.clone()),
                        None => None,
                    };
                },
                None => {
                    n -= 1;
                },
            }
        }
        None
    }

    /// Copies of all project records, in the order in which they are stored.
    pub fn find_all(&self) -> (r: Vec<RustProject>)
        ensures
            project_views(r@) == self.records(),
    {
        let mut out: Vec<RustProject> = Vec::new();
        let mut i: usize = 0;
        while i < self.projects.len()
            invariant
                i <= self.projects.len(),
                out@.len() == i,
                forall|k: int| 0 <= k < i ==> out@[k]@ == self.projects@[k]@,
            decreases self.projects.len() - i,
        {
            out.push(self.projects[i].clone());
            i += 1;
        }
        assert(project_views(out@) =~= self.records());
        out
    }

    /// Where the project with identity `id` is stored.
    fn position_of_id(&self, id: ProjectId) -> (r: Option<usize>)
        requires
            self.wf(),
        ensures
            match r {
                Some(i) => i < self.records().len() && self.records()[i as int].id == id@
                    && has_id(self.by_path(), id@) && path_with_id(self.by_path(), id@)
                    == self.records()[i as int].path,
                None => !has_id(self.by_path(), id@),
            },
    {
        let mut i: usize = 0;
        while i < self.projects.len()
            invariant
                self.wf(),
                i <= self.projects.len(),
                forall|k: int| 0 <= k < i ==> self.records()[k].id != id@,
            decreases self.projects.len() - i,
        {
            if self.projects[i].id.get() == id.get() {
                proof {
                    self.lemma_id_names_one_path(i as int);
                }
                return Some(i);
            }
            i += 1;
        }
        proof {
            if has_id(self.by_path(), id@) {
                let p = path_with_id(self.by_path(), id@);
                let k = position_of(self.records(), path_of(), p);
                assert(self.records()[k].id == id@);
            }
        }
        None
    }

    /// The record at position `i` is the only one with its identity.
    proof fn lemma_id_names_one_path(&self, i: int)
        requires
            self.wf(),
            0 <= i < self.records().len(),
        ensures
            has_id(self.by_path(), self.records()[i].id),
            path_with_id(self.by_path(), self.records()[i].id) == self.records()[i].path,
    {
        let id = self.records()[i].id;
        lemma_keyed_map_at(self.records(), path_of(), i);
        let at = self.records()[i].path;
        assert(self.by_path().contains_key(at) && self.by_path()[at].id == id);
        let p = path_with_id(self.by_path(), id);
        let k = position_of(self.records(), path_of(), p);
        assert(self.records()[k].id == id);
        if k < i {
            assert(id_of()(self.records()[k]) != id_of()(self.records()[i]));
        } else if i < k {
            assert(id_of()(self.records()[i]) != id_of()(self.records()[k]));
        }
    }

    /// The project with identity `id`.
    pub fn find_by_id(&self, id: ProjectId) -> (r: Option<RustProject>)
        requires
            self.wf(),
        ensures
            match r {
                Some(p) => has_id(self.by_path(), id@) && p@ == self.by_path()[path_with_id(
                    self.by_path(),
                    id@,
                )],
                None => !has_id(self.by_path(), id@),
            },
    {
        match self.position_of_id(id) {
            Some(i) => {
                proof {
                    lemma_keyed_map_at(self.records(), path_of(), i as int);
                }
                Some(self.projects[i].clone())
            },
            None => None,
        }
    }

    /// Copies of the projects at or below `base`, in the order in which they
    /// are stored.
    pub fn find_under(&self, base: &ProjectPath) -> (r: Vec<RustProject>)
        ensures
            project_views(r@) == self.records().filter(
                |p: ProjectView| base@.is_prefix_of(p.path),
            ),
    {
        let ghost pred = |p: ProjectView| base@.is_prefix_of(p.path);
        let mut out: Vec<RustProject> = Vec::new();
        let mut i: usize = 0;
        proof {
            reveal(Seq::filter);
            assert(self.records().take(0) =~= Seq::<ProjectView>::empty());
            assert(project_views(out@) =~= Seq::<ProjectView>::empty());
        }
        while i < self.projects.len()
            invariant
                i <= self.projects.len(),
                pred == |p: ProjectView| base@.is_prefix_of(p.path),
                project_views(out@) == self.records().take(i as int).filter(pred),
            decreases self.projects.len() - i,
        {
            let ghost seen = project_views(out@);
            proof {
                self.records().take(i as int).lemma_filter_push(self.records()[i as int], pred);
                assert(self.records().take(i as int).push(self.records()[i as int])
                    =~= self.records().take(i + 1));
            }
            if self.projects[i].path.starts_with(base) {
                out.push(self.projects[i].clone());
                assert(project_views(out@) =~= seen.push(self.records()[i as int]));
            }
            i += 1;
        }
        assert(self.records().take(self.records().len() as int) =~= self.records());
        out
    }

    /// Takes the project with identity `id` out of the registry and says
    /// whether there was one. The path index stays as it is.
    pub fn remove(&mut self, id: ProjectId) -> (r: bool)
        requires
            old(self).wf(),
        ensures
            final(self).wf(),
            r == has_id(old(self).by_path(), id@),
            r ==> final(self).by_path() == old(self).by_path().remove(
                path_with_id(old(self).by_path(), id@),
            ),
            !r ==> final(self).by_path() == old(self).by_path(),
            final(self).index() == old(self).index(),
            final(self).next_id_value() == old(self).next_id_value(),
            final(self).last_updated_value() == old(self).last_updated_value(),
    {
        let ghost before = *self;
        match self.position_of_id(id) {
            Some(i) => {
                proof {
                    lemma_keyed_map_remove(before.records(), path_of(), i as int);
                    lemma_keyed_map_remove(before.records(), id_of(), i as int);
                }
                let _ = self.projects.remove(i);
                proof {
                    assert(self.records() =~= before.records().remove(i as int));
                    assert forall|a: int| 0 <= a < self.records().len() implies (
                    #[trigger] self.records()[a]).id < self.next_id_value() by {
                        let a0 = if a < i { a } else { a + 1 };
                        assert(self.records()[a] == before.records()[a0]);
                    }
                }
                true
            },
            None => false,
        }
    }

    /// Takes every project out of the registry. The path index stays as it
    /// is, and identities are not given again.
    pub fn remove_all_projects(&mut self)
        requires
            old(self).wf(),
        ensures
            final(self).wf(),
            final(self).records() == Seq::<ProjectView>::empty(),
            final(self).by_path() == Map::<Seq<Seq<char>>, ProjectView>::empty(),
            final(self).index() == old(self).index(),
            final(self).next_id_value() == old(self).next_id_value(),
            final(self).last_updated_value() == old(self).last_updated_value(),
    {
        self.projects.clear();
        proof {
            assert(self.records() =~= Seq::<ProjectView>::empty());
            lemma_keyed_map_empty::<ProjectView, Seq<Seq<char>>>(path_of());
            lemma_keyed_map_empty::<ProjectView, u32>(id_of());
        }
    }
}

impl ProjectRegistry {
    /// Stores the items of `batch` one after the other, at the time `now`.
    pub fn add_projects_at(&mut self, batch: Vec<DiscoveredProject>, now: Timestamp)
        requires
            old(self).wf(),
            old(self).next_id_value() + batch@.len() <= u32::MAX,
            batch_lies_below(discovered_views(batch@)),
        ensures
            final(self).wf(),
            final(self).state() == old(self).state().add_all(discovered_views(batch@)),
            final(self).last_updated_value() == if batch@.len() == 0 {
                old(self).last_updated_value()
            } else {
                now
            },
    {
        let ghost before = *self;
        let ghost items = discovered_views(batch@);
        let ghost total = batch@.len();
        assert(items.take(0) =~= Seq::<DiscoveredView>::empty());
        for item in it: batch
            invariant
                self.wf(),
                it.seq().len() == total,
                items == discovered_views(it.seq()),
                batch_lies_below(items),
                self.state() == before.state().add_all(items.take(it.index() as int)),
                self.next_id_value() <= before.next_id_value() + it.index(),
                before.next_id_value() + total <= u32::MAX,
                self.last_updated_value() == if it.index() == 0 {
                    before.last_updated_value()
                } else {
                    now
                },
        {
            proof {
                let done = items.take(it.index() as int);
                let more = items.take(it.index() + 1);
                assert(more.drop_last() =~= done);
                assert(more.last() == item@);
                assert(items[it.index() as int].lies_below());
            }
            let DiscoveredProject { project, descendants } = item;
            self.add_project_at(project, &descendants, now);
        }
        assert(items.take(items.len() as int) =~= items);
    }

    /// Stores the items of `batch` one after the other, stamped with the
    /// current time.
    pub fn add_projects(&mut self, batch: Vec<DiscoveredProject>)
        requires
            old(self).wf(),
            old(self).next_id_value() + batch@.len() <= u32::MAX,
            batch_lies_below(discovered_views(batch@)),
        ensures
            final(self).wf(),
            final(self).state() == old(self).state().add_all(discovered_views(batch@)),
    {
        self.add_projects_at(batch, current_time());
    }

    /// The parts of a registry are parts that `from_parts` accepts: a
    /// registry that is put together again from its own records, index
    /// entries, time and next identity comes back as it was.
    pub proof fn lemma_parts_are_accepted(&self)
        requires
            self.wf(),
        ensures
            parts_valid(self.records(), self.index_entries(), self.next_id_value()),
    {
        lemma_entries_below_roots(self.index_entries());
    }

    /// A path that lies at or below no registered project has no owner.
    pub proof fn lemma_path_outside_every_root_has_no_owner(&self, path: Seq<Seq<char>>)
        requires
            self.wf(),
            forall|root: Seq<Seq<char>>|
                #![trigger self.by_path().contains_key(root)]
                self.by_path().contains_key(root) ==> !root.is_prefix_of(path),
        ensures
            self.owner(path) is None,
    {
        self.state().lemma_path_outside_every_root_has_no_owner(path);
    }

    /// No two projects of a registry share an identity, and the next
    /// identity to give is above every identity given.
    pub proof fn lemma_identities_distinct(&self)
        requires
            self.wf(),
        ensures
            forall|p: Seq<Seq<char>>, q: Seq<Seq<char>>|
                self.by_path().contains_key(p) && self.by_path().contains_key(q) && p != q ==> (
                #[trigger] self.by_path()[p]).id != (#[trigger] self.by_path()[q]).id,
            forall|p: Seq<Seq<char>>|
                self.by_path().contains_key(p) ==> (#[trigger] self.by_path()[p]).id
                    < self.next_id_value(),
            forall|p: Seq<Seq<char>>|
                self.by_path().contains_key(p) ==> (#[trigger] self.by_path()[p]).path == p,
    {
        assert forall|p: Seq<Seq<char>>, q: Seq<Seq<char>>|
            self.by_path().contains_key(p) && self.by_path().contains_key(q) && p != q implies (
        #[trigger] self.by_path()[p]).id != (#[trigger] self.by_path()[q]).id by {
            let i = position_of(self.records(), path_of(), p);
            let j = position_of(self.records(), path_of(), q);
            if i < j {
                assert(id_of()(self.records()[i]) != id_of()(self.records()[j]));
            } else if j < i {
                assert(id_of()(self.records()[j]) != id_of()(self.records()[i]));
            }
        }
        assert forall|p: Seq<Seq<char>>| self.by_path().contains_key(p) implies (
        #[trigger] self.by_path()[p]).id < self.next_id_value() && self.by_path()[p].path == p by {
            let i = position_of(self.records(), path_of(), p);
            assert(self.records()[i].id < self.next_id_value());
        }
    }
}

/// What must hold of the parts of a registry: no path is registered twice,
/// no identity is given twice, every identity is below `next_id`, no path is
/// indexed twice, and every indexed path is the root it is filed under or
/// lies below that root.
pub open spec fn parts_valid(
    records: Seq<ProjectView>,
    entries: Seq<IndexEntryView>,
    next_id: u32,
) -> bool {
    &&& unique_keys(records, path_of())
    &&& unique_keys(records, id_of())
    &&& forall|i: int| 0 <= i < records.len() ==> (#[trigger] records[i]).id < next_id
    &&& unique_keys(entries, entry_path())
    &&& entries_below_roots(entries)
}

/// Whether no two of `projects` share a path or an identity, and every
/// identity is below `next_id`.
fn projects_valid(projects: &Vec<RustProject>, next_id: ProjectId) -> (r: bool)
    ensures
        r == (unique_keys(project_views(projects@), path_of()) && unique_keys(
            project_views(projects@),
            id_of(),
        ) && forall|i: int|
            0 <= i < projects@.len() ==> (#[trigger] project_views(projects@)[i]).id < next_id@),
{
    let ghost views = project_views(projects@);
    let mut j: usize = 0;
    while j < projects.len()
        invariant
            j <= projects.len(),
            views == project_views(projects@),
            forall|a: int, b: int|
                0 <= a < b < j ==> #[trigger] path_of()(views[a]) != #[trigger] path_of()(views[b]),
            forall|a: int, b: int|
                0 <= a < b < j ==> #[trigger] id_of()(views[a]) != #[trigger] id_of()(views[b]),
            forall|a: int| 0 <= a < j ==> (#[trigger] views[a]).id < next_id@,
        decreases projects.len() - j,
    {
        if projects[j].id.get() >= next_id.get() {
            assert(!(views[j as int].id < next_id@));
            return false;
        }
        let mut i: usize = 0;
        while i < j
            invariant
                i <= j,
                j < projects.len(),
                views == project_views(projects@),
                forall|a: int|
                    0 <= a < i ==> #[trigger] path_of()(views[a]) != path_of()(views[j as int]),
                forall|a: int|
                    0 <= a < i ==> #[trigger] id_of()(views[a]) != id_of()(views[j as int]),
            decreases j - i,
        {
            if projects[i].path.same_as(&projects[j].path) {
                assert(path_of()(views[i as int]) == path_of()(views[j as int]));
                return false;
            }
            if projects[i].id.get() == projects[j].id.get() {
                assert(id_of()(views[i as int]) == id_of()(views[j as int]));
                return false;
            }
            i += 1;
        }
        j += 1;
    }
    true
}

/// Whether no two of `entries` file the same path, and each files its path
/// under a root at or above it.
fn entries_valid(entries: &Vec<IndexEntry>) -> (r: bool)
    ensures
        r == (unique_keys(entry_views(entries@), entry_path()) && entries_below_roots(
            entry_views(entries@),
        )),
{
    let ghost views = entry_views(entries@);
    let mut j: usize = 0;
    while j < entries.len()
        invariant
            j <= entries.len(),
            views == entry_views(entries@),
            forall|a: int, b: int|
                0 <= a < b < j ==> #[trigger] entry_path()(views[a]) != #[trigger] entry_path()(
                    views[b],
                ),
            forall|a: int| 0 <= a < j ==> (#[trigger] views[a]).root.is_prefix_of(views[a].path),
        decreases entries.len() - j,
    {
        if !entries[j].path.starts_with(&entries[j].root) {
            assert(!views[j as int].root.is_prefix_of(views[j as int].path));
            return false;
        }
        let mut i: usize = 0;
        while i < j
            invariant
                i <= j,
                j < entries.len(),
                views == entry_views(entries@),
                forall|a: int|
                    0 <= a < i ==> #[trigger] entry_path()(views[a]) != entry_path()(
                        views[j as int],
                    ),
            decreases j - i,
        {
            if entries[i].path.same_as(&entries[j].path) {
                assert(entry_path()(views[i as int]) == entry_path()(views[j as int]));
                return false;
            }
            i += 1;
        }
        j += 1;
    }
    true
}

/// The parts of a registry, as they are saved.
#[derive(Debug)]
pub struct RegistryParts {
    pub projects: Vec<RustProject>,
    pub path_index: Vec<IndexEntry>,
    pub last_updated: Timestamp,
    pub next_id: ProjectId,
}

impl ProjectRegistry {
    /// The registry that a file holds, given the parts that were read from
    /// the file, or `None` where there is no file. No file stands for an
    /// empty registry, stamped `now`; parts that break what holds of every
    /// registry are a parse error.
    pub fn load_at(saved: Option<RegistryParts>, now: Timestamp) -> (r: Result<
        ProjectRegistry,
        ProjectsError,
    >)
        ensures
            match saved {
                Some(parts) => match r {
                    Ok(registry) => {
                        &&& parts_valid(
                            project_views(parts.projects@),
                            entry_views(parts.path_index@),
                            parts.next_id@,
                        )
                        &&& registry.wf()
                        &&& registry.records() == project_views(parts.projects@)
                        &&& registry.index_entries() == entry_views(parts.path_index@)
                        &&& registry.next_id_value() == parts.next_id@
                        &&& registry.last_updated_value() == parts.last_updated
                    },
                    Err(e) => {
                        &&& !parts_valid(
                            project_views(parts.projects@),
                            entry_views(parts.path_index@),
                            parts.next_id@,
                        )
                        &&& e matches ProjectsError::ParseError { message }
                        &&& message@ == "registry is not consistent"@
                    },
                },
                None => {
                    &&& r is Ok
                    &&& r->Ok_0.wf()
                    &&& r->Ok_0.records() == Seq::<ProjectView>::empty()
                    &&& r->Ok_0.index_entries() == Seq::<IndexEntryView>::empty()
                    &&& r->Ok_0.next_id_value() == 1
                    &&& r->Ok_0.last_updated_value() == now
                },
            },
    {
        match saved {
            Some(parts) => Self::from_parts(
                parts.projects,
                parts.path_index,
                parts.last_updated,
                parts.next_id,
            ),
            None => {
                Ok(Self::new_at(now))
            },
        }
    }

    /// The registry that a file holds; with no file an empty registry,
    /// stamped with the current time. See `load_at`.
    pub fn load(saved: Option<RegistryParts>) -> (r: Result<ProjectRegistry, ProjectsError>)
        ensures
            saved is None ==> r is Ok && r->Ok_0.wf() && r->Ok_0.records() == Seq::<
                ProjectView,
            >::empty() && r->Ok_0.index_entries() == Seq::<IndexEntryView>::empty()
                && r->Ok_0.next_id_value() == 1,
            saved is Some ==> (r is Ok <==> parts_valid(
                project_views(saved->0.projects@),
                entry_views(saved->0.path_index@),
                saved->0.next_id@,
            )),
            saved is Some && r is Ok ==> r->Ok_0.wf() && r->Ok_0.records() == project_views(
                saved->0.projects@,
            ) && r->Ok_0.index_entries() == entry_views(saved->0.path_index@)
                && r->Ok_0.next_id_value() == saved->0.next_id@ && r->Ok_0.last_updated_value()
                == saved->0.last_updated,
    {
        Self::load_at(saved, current_time())
    }

    /// The parts of the registry, to save them.
    pub fn into_parts(self) -> (parts: RegistryParts)
        ensures
            project_views(parts.projects@) == self.records(),
            entry_views(parts.path_index@) == self.index_entries(),
            parts.last_updated == self.last_updated_value(),
            parts.next_id@ == self.next_id_value(),
    {
        RegistryParts {
            projects: self.projects,
            path_index: self.path_index,
            last_updated: self.last_updated,
            next_id: self.next_id,
        }
    }

    /// Puts a registry together from its parts, as they were read from a
    /// saved registry. Parts that break what holds of every registry are
    /// refused as a parse error.
    pub fn from_parts(
        projects: Vec<RustProject>,
        path_index: Vec<IndexEntry>,
        last_updated: Timestamp,
        next_id: ProjectId,
    ) -> (r: Result<ProjectRegistry, ProjectsError>)
        ensures
            match r {
                Ok(registry) => {
                    &&& parts_valid(project_views(projects@), entry_views(path_index@), next_id@)
                    &&& registry.wf()
                    &&& registry.records() == project_views(projects@)
                    &&& registry.index_entries() == entry_views(path_index@)
                    &&& registry.next_id_value() == next_id@
                    &&& registry.last_updated_value() == last_updated
                },
                Err(e) => {
                    &&& !parts_valid(project_views(projects@), entry_views(path_index@), next_id@)
                    &&& e matches ProjectsError::ParseError { message }
                    &&& message@ == "registry is not consistent"@
                },
            },
    {
        if projects_valid(&projects, next_id) && entries_valid(&path_index) {
            proof {
                lemma_entries_below_roots(entry_views(path_index@));
            }
            Ok(ProjectRegistry { projects, path_index, last_updated, next_id })
        } else {
            Err(
                ProjectsError::ParseError {
                    message: String::from_str("registry is not consistent"),
                },
            )
        }
    }
}

impl ProjectRegistry {
    /// Copies of the projects that live at or below the directory of the
    /// watcher called `name`; none where no watcher has that name.
    pub fn find_by_watcher(&self, watchers: &WatcherRegistry, name: &WatcherName) -> (r: Vec<
        RustProject,
    >)
        requires
            watchers.wf(),
        ensures
            project_views(r@) == if watchers.by_name().contains_key(name@) {
                self.records().filter(
                    |p: ProjectView| watchers.by_name()[name@].path.is_prefix_of(p.path),
                )
            } else {
                Seq::<ProjectView>::empty()
            },
    {
        match watchers.find_by_name(name) {
            Some(watcher) => self.find_under(&watcher.path),
            None => {
                let out: Vec<RustProject> = Vec::new();
                assert(project_views(out@) =~= Seq::<ProjectView>::empty());
                out
            },
        }
    }
}

/// A path with the path that it resolves to once links and relative parts
/// are followed.
#[derive(Debug)]
pub struct ResolvedPath {
    pub path: ProjectPath,
    pub canonical: ProjectPath,
}

/// The paths of a list with what they resolve to, as mathematical values.
pub open spec fn resolved_views(pairs: Seq<ResolvedPath>) -> Seq<(Seq<Seq<char>>, Seq<Seq<char>>)> {
    Seq::new(pairs.len(), |i: int| (pairs[i].path@, pairs[i].canonical@))
}

/// What `path` resolves to, going by the first of `pairs` that names it; a
/// path that none names resolves to itself.
pub open spec fn canonical_of(
    pairs: Seq<(Seq<Seq<char>>, Seq<Seq<char>>)>,
    path: Seq<Seq<char>>,
) -> Seq<Seq<char>>
    decreases pairs.len(),
{
    if pairs.len() == 0 {
        path
    } else if pairs.first().0 == path {
        pairs.first().1
    } else {
        canonical_of(pairs.drop_first(), path)
    }
}

/// The records that are left when each record is filed under what its path
/// resolves to and only the first record of each such path is kept. The
/// records that are kept are numbered from 1 in their order.
pub open spec fn deduplicated(
    records: Seq<ProjectView>,
    pairs: Seq<(Seq<Seq<char>>, Seq<Seq<char>>)>,
) -> Seq<ProjectView>
    decreases records.len(),
{
    if records.len() == 0 {
        Seq::empty()
    } else {
        let kept = deduplicated(records.drop_last(), pairs);
        let canonical = canonical_of(pairs, records.last().path);
        if has_key(kept, path_of(), canonical) {
            kept
        } else {
            kept.push(
                ProjectView { id: (kept.len() + 1) as u32, path: canonical, ..records.last() },
            )
        }
    }
}

/// What `path` resolves to, going by `pairs`.
fn resolve(pairs: &Vec<ResolvedPath>, path: &ProjectPath) -> (r: ProjectPath)
    ensures
        r@ == canonical_of(resolved_views(pairs@), path@),
{
    let ghost all = resolved_views(pairs@);
    let mut i: usize = 0;
    assert(all.skip(0) =~= all);
    while i < pairs.len()
        invariant
            i <= pairs.len(),
            all == resolved_views(pairs@),
            canonical_of(all, path@) == canonical_of(all.skip(i as int), path@),
        decreases pairs.len() - i,
    {
        proof {
            assert(all.skip(i as int).first() == all[i as int]);
            assert(all.skip(i as int).drop_first() =~= all.skip(i + 1));
        }
        if pairs[i].path.same_as(path) {
            return pairs[i].canonical.clone();
        }
        i += 1;
    }
    path.clone()
}

/// Where a project at `path` stands in `projects`.
fn position_in(projects: &Vec<RustProject>, path: &ProjectPath) -> (r: Option<usize>)
    ensures
        match r {
            Some(i) => i < projects@.len() && projects@[i as int]@.path == path@,
            None => !has_key(project_views(projects@), path_of(), path@),
        },
{
    let mut i: usize = 0;
    while i < projects.len()
        invariant
            i <= projects.len(),
            forall|k: int| 0 <= k < i ==> projects@[k]@.path != path@,
        decreases projects.len() - i,
    {
        if projects[i].path.same_as(path) {
            return Some(i);
        }
        i += 1;
    }
    assert forall|k: int| 0 <= k < project_views(projects@).len() implies #[trigger] path_of()(
        project_views(projects@)[k],
    ) != path@ by {}
    None
}

impl ProjectRegistry {
    /// Files every project under what its path resolves to, going by
    /// `pairs`, keeps the first project of each such path and numbers the
    /// projects that are kept from 1. The path index stays as it is.
    pub fn deduplicate_at(&mut self, pairs: &Vec<ResolvedPath>, now: Timestamp)
        requires
            old(self).wf(),
            old(self).records().len() < u32::MAX,
        ensures
            final(self).wf(),
            final(self).records() == deduplicated(old(self).records(), resolved_views(pairs@)),
            final(self).next_id_value() == final(self).records().len() + 1,
            final(self).index() == old(self).index(),
            final(self).last_updated_value() == now,
    {
        let ghost before = self.records();
        let ghost given = resolved_views(pairs@);
        let ghost total = self.projects@.len();
        let mut stored: Vec<RustProject> = Vec::new();
        core::mem::swap(&mut self.projects, &mut stored);
        let mut kept: Vec<RustProject> = Vec::new();
        proof {
            assert(before.take(0) =~= Seq::<ProjectView>::empty());
            assert(project_views(kept@) =~= Seq::<ProjectView>::empty());
            lemma_keyed_map_empty::<ProjectView, Seq<Seq<char>>>(path_of());
        }
        for project in it: stored
            invariant
                before == project_views(it.seq()),
                it.seq().len() == total,
                total < u32::MAX,
                given == resolved_views(pairs@),
                project_views(kept@) == deduplicated(before.take(it.index() as int), given),
                kept@.len() <= it.index(),
                unique_keys(project_views(kept@), path_of()),
                forall|k: int|
                    0 <= k < kept@.len() ==> (#[trigger] project_views(kept@)[k]).id == k + 1,
        {
            let ghost so_far = project_views(kept@);
            proof {
                assert(before.take(it.index() + 1).drop_last() =~= before.take(it.index() as int));
                assert(before.take(it.index() + 1).last() == project@);
            }
            let canonical = resolve(pairs, &project.path);
            match position_in(&kept, &canonical) {
                Some(at) => {
                    assert(path_of()(so_far[at as int]) == canonical@);
                },
                None => {
                    let mut renumbered = project;
                    renumbered.id = ProjectId::new((kept.len() + 1) as u32);
                    renumbered.path = canonical;
                    proof {
                        lemma_keyed_map_push(so_far, path_of(), renumbered@);
                    }
                    kept.push(renumbered);
                    assert(project_views(kept@) =~= so_far.push(renumbered@));
                },
            }
        }
        assert(before.take(before.len() as int) =~= before);
        self.next_id = ProjectId::new((kept.len() + 1) as u32);
        self.projects = kept;
        self.last_updated = now;
        proof {
            assert forall|a: int, b: int|
                0 <= a < b < self.records().len() implies #[trigger] id_of()(self.records()[a])
                != #[trigger] id_of()(self.records()[b]) by {
                assert(self.records()[a].id == a + 1);
                assert(self.records()[b].id == b + 1);
            }
        }
    }

    /// Files every project under what its path resolves to, stamped with the
    /// current time. See `deduplicate_at`.
    pub fn deduplicate(&mut self, pairs: &Vec<ResolvedPath>)
        requires
            old(self).wf(),
            old(self).records().len() < u32::MAX,
        ensures
            final(self).wf(),
            final(self).records() == deduplicated(old(self).records(), resolved_views(pairs@)),
            final(self).next_id_value() == final(self).records().len() + 1,
            final(self).index() == old(self).index(),
    {
        self.deduplicate_at(pairs, current_time());
    }
}

} // verus!
