//! What a registry holds, as mathematical values, and what holds of it.

use crate::types::path::ProjectPath;
use crate::types::path_index::{
    all_below, lemma_reindexed_keeps_ancestors, nearest_indexed_root, paths_lie_below, reindexed,
    roots_are_ancestors,
};
use crate::types::project::{path_views, ProjectView, RustProject};
use vstd::prelude::*;

verus! {

/// A project to store, with the paths that lie below its directory.
#[derive(Debug)]
pub struct DiscoveredProject {
    pub project: RustProject,
    pub descendants: Vec<ProjectPath>,
}

/// What a project to store holds, as mathematical values.
pub struct DiscoveredView {
    pub project: ProjectView,
    pub below: Seq<Seq<Seq<char>>>,
}

impl View for DiscoveredProject {
    type V = DiscoveredView;

    open spec fn view(&self) -> DiscoveredView {
        DiscoveredView { project: self.project@, below: path_views(self.descendants@) }
    }
}

impl DiscoveredView {
    /// Whether the paths that are given as lying below the project do lie
    /// at or below the project's path.
    pub open spec fn lies_below(self) -> bool {
        all_below(self.project.path, self.below)
    }
}

impl DiscoveredProject {
    /// Whether the paths that are given as lying below the project do lie
    /// at or below the project's path.
    pub fn lies_below(&self) -> (r: bool)
        ensures
            r == self@.lies_below(),
    {
        paths_lie_below(&self.project.path, &self.descendants)
    }
}

/// Whether in each item of a batch the paths below the project lie at or
/// below the project's path.
pub open spec fn batch_lies_below(batch: Seq<DiscoveredView>) -> bool {
    forall|i: int| 0 <= i < batch.len() ==> (#[trigger] batch[i]).lies_below()
}

/// Whether in each item of `batch` the paths below the project lie at or
/// below the project's path.
pub fn batch_is_consistent(batch: &Vec<DiscoveredProject>) -> (r: bool)
    ensures
        r == batch_lies_below(discovered_views(batch@)),
{
    let mut i: usize = 0;
    while i < batch.len()
        invariant
            i <= batch.len(),
            forall|k: int| 0 <= k < i ==> (#[trigger] discovered_views(batch@)[k]).lies_below(),
        decreases batch.len() - i,
    {
        if !batch[i].lies_below() {
            assert(!discovered_views(batch@)[i as int].lies_below());
            return false;
        }
        i += 1;
    }
    true
}

/// The items of a batch, as mathematical values.
pub open spec fn discovered_views(batch: Seq<DiscoveredProject>) -> Seq<DiscoveredView> {
    Seq::new(batch.len(), |i: int| batch[i]@)
}

/// What a registry holds, apart from the time of its last change.
pub struct RegistryState {
    /// From each project's path to its record.
    pub projects: Map<Seq<Seq<char>>, ProjectView>,
    /// From each indexed path to the root of its project.
    pub index: Map<Seq<Seq<char>>, Seq<Seq<char>>>,
    /// The identity that the next new project gets.
    pub next_id: int,
}

impl RegistryState {
    /// The state after `project` was stored with the paths `below` it. A
    /// project that is new gets the next identity; one that replaces a
    /// registered project keeps that project's identity. The part of the
    /// index that points to the project is rebuilt from `below`.
    pub open spec fn add(self, project: ProjectView, below: Seq<Seq<Seq<char>>>) -> RegistryState {
        if self.projects.contains_key(project.path) {
            RegistryState {
                projects: self.projects.insert(
                    project.path,
                    project.with_id(self.projects[project.path].id),
                ),
                index: reindexed(self.index, project.path, below),
                next_id: self.next_id,
            }
        } else {
            RegistryState {
                projects: self.projects.insert(project.path, project.with_id(self.next_id as u32)),
                index: reindexed(self.index, project.path, below),
                next_id: self.next_id + 1,
            }
        }
    }

    /// The state after the items of `batch` were stored one after the other.
    pub open spec fn add_all(self, batch: Seq<DiscoveredView>) -> RegistryState
        decreases batch.len(),
    {
        if batch.len() == 0 {
            self
        } else {
            self.add_all(batch.drop_last()).add(batch.last().project, batch.last().below)
        }
    }

    /// The project that owns `path`: the one at the root under which the
    /// nearest indexed ancestor of `path` (or `path` itself) is filed, if a
    /// project is registered at that root.
    pub open spec fn owner(self, path: Seq<Seq<char>>) -> Option<ProjectView> {
        match nearest_indexed_root(self.index, path, path.len()) {
            Some(root) => if self.projects.contains_key(root) {
                Some(self.projects[root])
            } else {
                None
            },
            None => None,
        }
    }

    /// The project filed under exactly `path` in the index, if that project
    /// is registered.
    pub open spec fn indexed_project(self, path: Seq<Seq<char>>) -> Option<ProjectView> {
        if self.index.contains_key(path) && self.projects.contains_key(self.index[path]) {
            Some(self.projects[self.index[path]])
        } else {
            None
        }
    }
}

impl RegistryState {
    /// Right after a project was stored, the index files the project's own
    /// path and every path that lay below it under the project's path.
    pub proof fn lemma_add_covers_paths(
        self,
        project: ProjectView,
        below: Seq<Seq<Seq<char>>>,
        i: int,
    )
        requires
            0 <= i < below.len(),
        ensures
            self.add(project, below).index.contains_key(project.path),
            self.add(project, below).index[project.path] == project.path,
            self.add(project, below).index.contains_key(below[i]),
            self.add(project, below).index[below[i]] == project.path,
    {
        let all = below.push(project.path);
        assert(all[below.len() as int] == project.path);
        assert(all[i] == below[i]);
    }

    /// Right after a project was stored, it owns its own path and every path
    /// that lay below it (the empty path has no owner).
    pub proof fn lemma_added_project_owns_paths(
        self,
        project: ProjectView,
        below: Seq<Seq<Seq<char>>>,
        path: Seq<Seq<char>>,
    )
        requires
            path == project.path || below.contains(path),
            path.len() > 0,
        ensures
            self.add(project, below).owner(path) == Some(
                self.add(project, below).projects[project.path],
            ),
            self.add(project, below).projects[project.path].path == project.path,
            self.add(project, below).projects.contains_key(project.path),
    {
        let all = below.push(project.path);
        assert(all[below.len() as int] == project.path);
        if below.contains(path) {
            let j = choose|j: int| 0 <= j < below.len() && below[j] == path;
            assert(all[j] == path);
        }
        assert(path.take(path.len() as int) =~= path);
    }

    /// Right after a project was stored, it owns every path below its own
    /// path for which the index holds no nearer ancestor.
    pub proof fn lemma_added_project_owns_paths_below(
        self,
        project: ProjectView,
        below: Seq<Seq<Seq<char>>>,
        path: Seq<Seq<char>>,
    )
        requires
            project.path.len() > 0,
            project.path.is_prefix_of(path),
            forall|n: int|
                project.path.len() < n <= path.len() ==> !self.add(
                    project,
                    below,
                ).index.contains_key(#[trigger] path.take(n)),
        ensures
            self.add(project, below).owner(path) == Some(
                self.add(project, below).projects[project.path],
            ),
    {
        let after = self.add(project, below);
        let all = below.push(project.path);
        let m = project.path.len();
        assert(all[below.len() as int] == project.path);
        assert(path.take(m as int) =~= project.path);
        assert(after.index.contains_key(path.take(m as int)));
        assert(nearest_indexed_root(after.index, path, m) == Some(project.path));
        Self::lemma_nearest_skips(after.index, path, path.len(), m);
    }

    /// Looking for the nearest indexed ancestor passes over the lengths at
    /// which nothing is indexed.
    proof fn lemma_nearest_skips(
        index: Map<Seq<Seq<char>>, Seq<Seq<char>>>,
        path: Seq<Seq<char>>,
        n: nat,
        m: nat,
    )
        requires
            m <= n <= path.len(),
            forall|k: int| m < k <= n ==> !index.contains_key(#[trigger] path.take(k)),
        ensures
            nearest_indexed_root(index, path, n) == nearest_indexed_root(index, path, m),
        decreases n,
    {
        if n > m {
            Self::lemma_nearest_skips(index, path, (n - 1) as nat, m);
        }
    }

    /// Storing a project with paths at or below it keeps every indexed
    /// path at or below the root it is filed under.
    pub proof fn lemma_add_keeps_ancestors(self, project: ProjectView, below: Seq<Seq<Seq<char>>>)
        requires
            roots_are_ancestors(self.index),
            all_below(project.path, below),
        ensures
            roots_are_ancestors(self.add(project, below).index),
    {
        lemma_reindexed_keeps_ancestors(self.index, project.path, below);
    }

    /// The owner of a path sits at the path or above it: its record is
    /// registered under a root that is the path or one of its ancestors.
    pub proof fn lemma_owner_is_ancestor(self, path: Seq<Seq<char>>)
        requires
            roots_are_ancestors(self.index),
        ensures
            self.owner(path) is Some ==> exists|root: Seq<Seq<char>>|
                #![trigger self.projects[root]]
                self.projects.contains_key(root) && self.projects[root] == self.owner(path)->0
                    && root.is_prefix_of(path),
    {
        Self::lemma_nearest_is_ancestor(self.index, path, path.len());
        if self.owner(path) is Some {
            let root = nearest_indexed_root(self.index, path, path.len())->0;
            assert(self.projects.contains_key(root) && self.projects[root] == self.owner(path)->0
                && root.is_prefix_of(path));
        }
    }

    /// A path that lies at or below no registered root has no owner.
    pub proof fn lemma_path_outside_every_root_has_no_owner(self, path: Seq<Seq<char>>)
        requires
            roots_are_ancestors(self.index),
            forall|root: Seq<Seq<char>>|
                #![trigger self.projects.contains_key(root)]
                self.projects.contains_key(root) ==> !root.is_prefix_of(path),
        ensures
            self.owner(path) is None,
    {
        Self::lemma_nearest_is_ancestor(self.index, path, path.len());
    }

    /// The root of the nearest indexed ancestor of a path is the path or
    /// one of its ancestors.
    proof fn lemma_nearest_is_ancestor(
        index: Map<Seq<Seq<char>>, Seq<Seq<char>>>,
        path: Seq<Seq<char>>,
        n: nat,
    )
        requires
            n <= path.len(),
            roots_are_ancestors(index),
        ensures
            nearest_indexed_root(index, path, n) is Some ==> nearest_indexed_root(
                index,
                path,
                n,
            )->0.is_prefix_of(path),
        decreases n,
    {
        if n > 0 {
            let ancestor = path.take(n as int);
            if index.contains_key(ancestor) {
                let root = index[ancestor];
                assert(root.is_prefix_of(ancestor));
                assert(root =~= path.subrange(0, root.len() as int)) by {
                    assert(root =~= ancestor.subrange(0, root.len() as int));
                }
            } else {
                Self::lemma_nearest_is_ancestor(index, path, (n - 1) as nat);
            }
        }
    }

    /// A path none of whose ancestors is indexed has no owner.
    pub proof fn lemma_unindexed_path_has_no_owner(self, path: Seq<Seq<char>>)
        requires
            forall|n: int|
                0 < n <= path.len() ==> !self.index.contains_key(#[trigger] path.take(n)),
        ensures
            self.owner(path) is None,
    {
        Self::lemma_nearest_none(self.index, path, path.len());
    }

    proof fn lemma_nearest_none(
        index: Map<Seq<Seq<char>>, Seq<Seq<char>>>,
        path: Seq<Seq<char>>,
        n: nat,
    )
        requires
            n <= path.len(),
            forall|k: int| 0 < k <= path.len() ==> !index.contains_key(#[trigger] path.take(k)),
        ensures
            nearest_indexed_root(index, path, n) is None,
        decreases n,
    {
        if n > 0 {
            Self::lemma_nearest_none(index, path, (n - 1) as nat);
        }
    }

    /// Every project of a batch is registered once the batch was stored.
    pub proof fn lemma_added_are_registered(self, batch: Seq<DiscoveredView>, i: int)
        requires
            0 <= i < batch.len(),
        ensures
            self.add_all(batch).projects.contains_key(batch[i].project.path),
        decreases batch.len(),
    {
        if i < batch.len() - 1 {
            self.lemma_added_are_registered(batch.drop_last(), i);
        }
    }

    /// Storing projects takes no project out of the registry.
    pub proof fn lemma_add_all_keeps_projects(self, batch: Seq<DiscoveredView>, p: Seq<Seq<char>>)
        requires
            self.projects.contains_key(p),
        ensures
            self.add_all(batch).projects.contains_key(p),
        decreases batch.len(),
    {
        if batch.len() > 0 {
            self.lemma_add_all_keeps_projects(batch.drop_last(), p);
        }
    }
}

} // verus!
