//! Listing the registered projects.

use crate::types::project::{project_views, ProjectView, RustProject};
use crate::types::registry::ProjectRegistry;
use crate::types::values::WatcherName;
use crate::types::watchers::WatcherRegistry;
use vstd::prelude::*;

verus! {

/// The projects to show, in the order of their identities.
#[derive(Debug)]
pub struct ProjectListResult {
    pub projects: Vec<RustProject>,
    pub total_count: usize,
}

/// Where a record with the identity `id` goes into a list that is in the
/// order of its identities: behind the last record whose identity is not
/// above `id`.
pub open spec fn place_for(sorted: Seq<ProjectView>, id: u32) -> int
    decreases sorted.len(),
{
    if sorted.len() == 0 {
        0
    } else if sorted.last().id <= id {
        sorted.len() as int
    } else {
        place_for(sorted.drop_last(), id)
    }
}

/// The records of `projects` in the order of their identities; records of
/// one identity keep their order.
pub open spec fn by_identity(projects: Seq<ProjectView>) -> Seq<ProjectView>
    decreases projects.len(),
{
    if projects.len() == 0 {
        Seq::empty()
    } else {
        let sorted = by_identity(projects.drop_last());
        sorted.insert(place_for(sorted, projects.last().id), projects.last())
    }
}

/// Whether the identities of `projects` never go down.
pub open spec fn ordered_by_identity(projects: Seq<ProjectView>) -> bool {
    forall|i: int, j: int| 0 <= i < j < projects.len() ==> projects[i].id <= projects[j].id
}

/// A place to insert at lies inside the list, behind every identity that is
/// not above the new one and before every identity that is.
pub proof fn lemma_place_for(sorted: Seq<ProjectView>, id: u32)
    requires
        ordered_by_identity(sorted),
    ensures
        0 <= place_for(sorted, id) <= sorted.len(),
        forall|k: int| 0 <= k < place_for(sorted, id) ==> sorted[k].id <= id,
        forall|k: int| place_for(sorted, id) <= k < sorted.len() ==> sorted[k].id > id,
    decreases sorted.len(),
{
    if sorted.len() > 0 && sorted.last().id > id {
        let shorter = sorted.drop_last();
        assert forall|i: int, j: int| 0 <= i < j < shorter.len() implies shorter[i].id
            <= shorter[j].id by {
            assert(shorter[i] == sorted[i] && shorter[j] == sorted[j]);
        }
        lemma_place_for(shorter, id);
        assert forall|k: int| 0 <= k < place_for(sorted, id) implies sorted[k].id <= id by {
            assert(shorter[k] == sorted[k]);
        }
        assert forall|k: int| place_for(sorted, id) <= k < sorted.len() implies sorted[k].id
            > id by {
            if k < shorter.len() {
                assert(shorter[k] == sorted[k]);
            }
        }
    }
}

/// The ordered list holds the same records as the list it was made from,
/// each as often, and its identities never go down.
pub proof fn lemma_by_identity(projects: Seq<ProjectView>)
    ensures
        ordered_by_identity(by_identity(projects)),
        by_identity(projects).len() == projects.len(),
        by_identity(projects).to_multiset() == projects.to_multiset(),
    decreases projects.len(),
{
    if projects.len() == 0 {
        assert(projects =~= Seq::<ProjectView>::empty());
    } else {
        let shorter = projects.drop_last();
        let last = projects.last();
        lemma_by_identity(shorter);
        let sorted = by_identity(shorter);
        lemma_place_for(sorted, last.id);
        let at = place_for(sorted, last.id);
        let out = sorted.insert(at, last);
        assert forall|i: int, j: int| 0 <= i < j < out.len() implies out[i].id <= out[j].id by {
            if i < at && j > at {
                assert(out[i] == sorted[i] && out[j] == sorted[j - 1]);
            } else if i < at && j < at {
                assert(out[i] == sorted[i] && out[j] == sorted[j]);
            } else if i > at {
                assert(out[i] == sorted[i - 1] && out[j] == sorted[j - 1]);
            } else if i == at {
                assert(out[j] == sorted[j - 1]);
            } else {
                assert(out[i] == sorted[i]);
            }
        }
        vstd::seq_lib::lemma_multiset_commutative(sorted.subrange(0, at), seq![last]);
        assert(out =~= sorted.subrange(0, at) + seq![last] + sorted.subrange(
            at,
            sorted.len() as int,
        ));
        assert(sorted =~= sorted.subrange(0, at) + sorted.subrange(at, sorted.len() as int));
        vstd::seq_lib::lemma_multiset_commutative(
            sorted.subrange(0, at) + seq![last],
            sorted.subrange(at, sorted.len() as int),
        );
        vstd::seq_lib::lemma_multiset_commutative(
            sorted.subrange(0, at),
            sorted.subrange(at, sorted.len() as int),
        );
        assert(projects =~= shorter + seq![last]);
        vstd::seq_lib::lemma_multiset_commutative(shorter, seq![last]);
        assert(out.to_multiset() =~= projects.to_multiset());
    }
}

/// Puts projects into the order of their identities; projects of one
/// identity keep their order.
pub fn sort_by_id(projects: Vec<RustProject>) -> (r: Vec<RustProject>)
    ensures
        project_views(r@) == by_identity(project_views(projects@)),
{
    let ghost all = project_views(projects@);
    let mut out: Vec<RustProject> = Vec::new();
    assert(all.take(0) =~= Seq::<ProjectView>::empty());
    assert(project_views(out@) =~= Seq::<ProjectView>::empty());
    for project in it: projects
        invariant
            all == project_views(it.seq()),
            project_views(out@) == by_identity(all.take(it.index() as int)),
    {
        let ghost sorted = project_views(out@);
        proof {
            assert(all.take(it.index() + 1).drop_last() =~= all.take(it.index() as int));
            assert(all.take(it.index() + 1).last() == project@);
        }
        let id: u32 = project.id.get();
        let mut at: usize = out.len();
        assert(sorted.take(at as int) =~= sorted);
        while at > 0 && out[at - 1].id.get() > id
            invariant
                at <= out.len(),
                sorted == project_views(out@),
                place_for(sorted, id) == place_for(sorted.take(at as int), id),
            decreases at,
        {
            proof {
                assert(sorted.take(at as int).last() == sorted[at - 1]);
                assert(sorted.take(at as int).drop_last() =~= sorted.take(at - 1));
            }
            at -= 1;
        }
        proof {
            if at > 0 {
                assert(sorted.take(at as int).last() == sorted[at - 1]);
            }
            assert(place_for(sorted, id) == at);
        }
        out.insert(at, project);
        assert(project_views(out@) =~= sorted.insert(at as int, project@));
    }
    assert(all.take(all.len() as int) =~= all);
    out
}

/// The projects to list: all of them, or with a watcher's name those at or
/// below the watcher's directory, in the order of their identities.
pub fn handle_list_projects(
    registry: &ProjectRegistry,
    watchers: &WatcherRegistry,
    watcher_name: Option<&WatcherName>,
) -> (r: ProjectListResult)
    requires
        watchers.wf(),
    ensures
        project_views(r.projects@) == by_identity(
            match watcher_name {
                Some(name) => if watchers.by_name().contains_key(name@) {
                    registry.records().filter(
                        |p: ProjectView| watchers.by_name()[name@].path.is_prefix_of(p.path),
                    )
                } else {
                    Seq::<ProjectView>::empty()
                },
                None => registry.records(),
            },
        ),
        r.total_count == r.projects@.len(),
{
    let selected = match watcher_name {
        Some(name) => registry.find_by_watcher(watchers, name),
        None => registry.find_all(),
    };
    let projects = sort_by_id(selected);
    ProjectListResult { total_count: projects.len(), projects }
}

} // verus!
