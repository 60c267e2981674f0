//! The path index: which project each path on disk belongs to.

use crate::types::keyed::{
    has_key, keyed_map, lemma_keyed_map_at, lemma_keyed_map_push, lemma_keyed_map_swap_remove,
    lemma_keyed_map_update, position_of, unique_keys,
};
use crate::types::path::ProjectPath;
use crate::types::project::path_views;
use vstd::prelude::*;

verus! {

/// One entry of the path index: `path` lies in the project at `root`.
#[derive(Debug)]
pub struct IndexEntry {
    pub path: ProjectPath,
    pub root: ProjectPath,
}

/// What an index entry holds, as mathematical values.
pub struct IndexEntryView {
    pub path: Seq<Seq<char>>,
    pub root: Seq<Seq<char>>,
}

impl View for IndexEntry {
    type V = IndexEntryView;

    open spec fn view(&self) -> IndexEntryView {
        IndexEntryView { path: self.path@, root: self.root@ }
    }
}

impl Clone for IndexEntry {
    fn clone(&self) -> (r: Self)
        ensures
            r@ == self@,
    {
        IndexEntry { path: self.path.clone(), root: self.root.clone() }
    }
}

/// The entries of a list, as mathematical values.
pub open spec fn entry_views(entries: Seq<IndexEntry>) -> Seq<IndexEntryView> {
    Seq::new(entries.len(), |i: int| entries[i]@)
}

/// The key of an index entry: the indexed path.
pub open spec fn entry_path() -> spec_fn(IndexEntryView) -> Seq<Seq<char>> {
    |e: IndexEntryView| e.path
}

/// The root that an index entry points to.
pub open spec fn entry_root() -> spec_fn(IndexEntryView) -> Seq<Seq<char>> {
    |e: IndexEntryView| e.root
}

/// The path index that a list of entries stands for: from each indexed path
/// to the root of its project.
pub open spec fn index_map(entries: Seq<IndexEntryView>) -> Map<Seq<Seq<char>>, Seq<Seq<char>>> {
    keyed_map(entries, entry_path()).map_values(entry_root())
}

/// The index without the entries that point to `root`, and with each of
/// `paths` pointing to `root`.
pub open spec fn refiled(
    index: Map<Seq<Seq<char>>, Seq<Seq<char>>>,
    root: Seq<Seq<char>>,
    paths: Seq<Seq<Seq<char>>>,
) -> Map<Seq<Seq<char>>, Seq<Seq<char>>> {
    Map::new(
        |k: Seq<Seq<char>>| paths.contains(k) || (index.contains_key(k) && index[k] != root),
        |k: Seq<Seq<char>>|
            if paths.contains(k) {
                root
            } else {
                index[k]
            },
    )
}

/// The index after the subtree of `root` was rebuilt from `paths`: every
/// entry that pointed to `root` is gone, and `root` and each of `paths` point
/// to `root`.
pub open spec fn reindexed(
    index: Map<Seq<Seq<char>>, Seq<Seq<char>>>,
    root: Seq<Seq<char>>,
    paths: Seq<Seq<Seq<char>>>,
) -> Map<Seq<Seq<char>>, Seq<Seq<char>>> {
    refiled(index, root, paths.push(root))
}

/// Whether each of `paths` is `root` itself or lies below it.
pub open spec fn all_below(root: Seq<Seq<char>>, paths: Seq<Seq<Seq<char>>>) -> bool {
    forall|i: int| 0 <= i < paths.len() ==> root.is_prefix_of(#[trigger] paths[i])
}

/// Whether every indexed path is the root it is filed under, or lies below
/// that root.
pub open spec fn roots_are_ancestors(index: Map<Seq<Seq<char>>, Seq<Seq<char>>>) -> bool {
    forall|k: Seq<Seq<char>>| index.contains_key(k) ==> (#[trigger] index[k]).is_prefix_of(k)
}

/// Whether every entry's path is the entry's root, or lies below it.
pub open spec fn entries_below_roots(entries: Seq<IndexEntryView>) -> bool {
    forall|i: int|
        0 <= i < entries.len() ==> (#[trigger] entries[i]).root.is_prefix_of(entries[i].path)
}

/// Rebuilding the part of a project from paths at or below the project
/// keeps every indexed path at or below its root.
pub proof fn lemma_reindexed_keeps_ancestors(
    index: Map<Seq<Seq<char>>, Seq<Seq<char>>>,
    root: Seq<Seq<char>>,
    paths: Seq<Seq<Seq<char>>>,
)
    requires
        roots_are_ancestors(index),
        all_below(root, paths),
    ensures
        roots_are_ancestors(reindexed(index, root, paths)),
{
    let all = paths.push(root);
    let after = reindexed(index, root, paths);
    assert(root =~= root.subrange(0, root.len() as int));
    assert forall|k: Seq<Seq<char>>| after.contains_key(k) implies (
    #[trigger] after[k]).is_prefix_of(k) by {
        if all.contains(k) {
            let j = choose|j: int| 0 <= j < all.len() && all[j] == k;
            if j < paths.len() {
                assert(all[j] == paths[j]);
            }
        } else {
            assert(index[k].is_prefix_of(k));
        }
    }
}

/// With unique paths, entries that lie at or below their roots make an
/// index in which every path lies at or below its root, and the other way
/// round.
pub proof fn lemma_entries_below_roots(entries: Seq<IndexEntryView>)
    requires
        unique_keys(entries, entry_path()),
    ensures
        entries_below_roots(entries) <==> roots_are_ancestors(index_map(entries)),
{
    if entries_below_roots(entries) {
        assert forall|k: Seq<Seq<char>>| index_map(entries).contains_key(k) implies (
        #[trigger] index_map(entries)[k]).is_prefix_of(k) by {
            let i = position_of(entries, entry_path(), k);
            lemma_index_map_at(entries, i);
            assert(entries[i].root.is_prefix_of(entries[i].path));
        }
    }
    if roots_are_ancestors(index_map(entries)) {
        assert forall|i: int| 0 <= i < entries.len() implies (
        #[trigger] entries[i]).root.is_prefix_of(entries[i].path) by {
            lemma_index_map_at(entries, i);
            assert(index_map(entries)[entries[i].path].is_prefix_of(entries[i].path));
        }
    }
}

/// Whether each of `paths` is `root` itself or lies below it.
pub fn paths_lie_below(root: &ProjectPath, paths: &Vec<ProjectPath>) -> (r: bool)
    ensures
        r == all_below(root@, path_views(paths@)),
{
    let mut i: usize = 0;
    while i < paths.len()
        invariant
            i <= paths.len(),
            forall|k: int| 0 <= k < i ==> root@.is_prefix_of(#[trigger] path_views(paths@)[k]),
        decreases paths.len() - i,
    {
        if !paths[i].starts_with(root) {
            assert(!root@.is_prefix_of(path_views(paths@)[i as int]));
            return false;
        }
        i += 1;
    }
    true
}

/// The root under which the nearest indexed ancestor of `path` is filed,
/// looking at `path` itself first and at its first `n` components at most.
pub open spec fn nearest_indexed_root(
    index: Map<Seq<Seq<char>>, Seq<Seq<char>>>,
    path: Seq<Seq<char>>,
    n: nat,
) -> Option<Seq<Seq<char>>>
    decreases n,
{
    if n == 0 {
        None
    } else if index.contains_key(path.take(n as int)) {
        Some(index[path.take(n as int)])
    } else {
        nearest_indexed_root(index, path, (n - 1) as nat)
    }
}

/// Each entry is what the index holds under its path.
pub proof fn lemma_index_map_at(s: Seq<IndexEntryView>, i: int)
    requires
        unique_keys(s, entry_path()),
        0 <= i < s.len(),
    ensures
        index_map(s).contains_key(s[i].path),
        index_map(s)[s[i].path] == s[i].root,
{
    lemma_keyed_map_at(s, entry_path(), i);
}

/// Where `path` is filed in a list of index entries.
pub(crate) fn index_position(entries: &Vec<IndexEntry>, path: &ProjectPath) -> (r: Option<usize>)
    ensures
        match r {
            Some(i) => i < entries@.len() && entries@[i as int].path@ == path@,
            None => !has_key(entry_views(entries@), entry_path(), path@),
        },
{
    let mut i: usize = 0;
    while i < entries.len()
        invariant
            i <= entries.len(),
            forall|k: int| 0 <= k < i ==> entries@[k].path@ != path@,
        decreases entries.len() - i,
    {
        if entries[i].path.same_as(path) {
            return Some(i);
        }
        i += 1;
    }
    assert forall|k: int| 0 <= k < entry_views(entries@).len() implies #[trigger] entry_path()(
        entry_views(entries@)[k],
    ) != path@ by {}
    None
}

/// Files `path` under `root`, in place of what `path` was filed under.
pub(crate) fn index_upsert(entries: &mut Vec<IndexEntry>, path: ProjectPath, root: ProjectPath)
    requires
        unique_keys(entry_views(old(entries)@), entry_path()),
    ensures
        unique_keys(entry_views(final(entries)@), entry_path()),
        index_map(entry_views(final(entries)@)) == index_map(entry_views(old(entries)@)).insert(
            path@,
            root@,
        ),
{
    let ghost before = entry_views(entries@);
    let entry = IndexEntry { path, root };
    match index_position(entries, &entry.path) {
        Some(i) => {
            proof {
                lemma_keyed_map_update(before, entry_path(), i as int, entry@);
            }
            entries[i] = entry;
            assert(entry_views(entries@) =~= before.update(i as int, entry@));
        },
        None => {
            proof {
                lemma_keyed_map_push(before, entry_path(), entry@);
            }
            entries.push(entry);
            assert(entry_views(entries@) =~= before.push(entry@));
        },
    }
    assert(index_map(entry_views(entries@)) =~= index_map(before).insert(entry@.path, entry@.root));
}

/// Takes out every entry that is filed under `root`.
pub(crate) fn index_remove_root(entries: &mut Vec<IndexEntry>, root: &ProjectPath)
    requires
        unique_keys(entry_views(old(entries)@), entry_path()),
    ensures
        unique_keys(entry_views(final(entries)@), entry_path()),
        index_map(entry_views(final(entries)@)) == refiled(
            index_map(entry_views(old(entries)@)),
            root@,
            Seq::empty(),
        ),
{
    let ghost before = index_map(entry_views(entries@));
    let mut i: usize = 0;
    while i < entries.len()
        invariant
            i <= entries.len(),
            unique_keys(entry_views(entries@), entry_path()),
            forall|k: int| 0 <= k < i ==> entries@[k].root@ != root@,
            forall|p: Seq<Seq<char>>| #[trigger]
                index_map(entry_views(entries@)).contains_key(p) ==> before.contains_key(p)
                    && before[p] == index_map(entry_views(entries@))[p],
            forall|p: Seq<Seq<char>>| #[trigger]
                before.contains_key(p) && before[p] != root@ ==> index_map(
                    entry_views(entries@),
                ).contains_key(p),
        decreases entries.len() - i,
    {
        if entries[i].root.same_as(root) {
            let ghost cur = entry_views(entries@);
            proof {
                lemma_keyed_map_swap_remove(cur, entry_path(), i as int);
                lemma_index_map_at(cur, i as int);
            }
            let _ = entries.swap_remove(i);
            assert(entry_views(entries@) =~= cur.update(i as int, cur.last()).drop_last());
            assert(index_map(entry_views(entries@)) =~= index_map(cur).remove(cur[i as int].path));
        } else {
            i += 1;
        }
    }
    let ghost after = index_map(entry_views(entries@));
    assert forall|p: Seq<Seq<char>>| after.contains_key(p) implies before[p] != root@ by {
        let k = position_of(entry_views(entries@), entry_path(), p);
        lemma_index_map_at(entry_views(entries@), k);
    }
    assert(after =~= refiled(before, root@, Seq::empty()));
}

} // verus!
