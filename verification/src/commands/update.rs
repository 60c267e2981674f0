//! Refreshing the measurements of registered projects.

use crate::types::path::ProjectPath;
use crate::types::path_index::{all_below, paths_lie_below};
use crate::types::project::{path_views, ProjectView, RustProject};
use crate::types::registry::ProjectRegistry;
use crate::types::registry_state::RegistryState;
use crate::types::values::{FileSize, Timestamp, TimingDuration};
use vstd::prelude::*;

verus! {

/// The names of the projects that an update changed.
#[derive(Debug)]
pub struct UpdateResult {
    pub updated_projects: Vec<String>,
    pub total_updated: usize,
}

impl UpdateResult {
    /// The result of an update that changed the projects called
    /// `updated_projects`.
    pub fn from(updated_projects: Vec<String>) -> (r: Self)
        ensures
            r.updated_projects == updated_projects,
            r.total_updated == updated_projects@.len(),
    {
        UpdateResult { total_updated: updated_projects.len(), updated_projects }
    }
}

/// The build time to keep: a new estimate of 0 means "unknown" and leaves
/// the old one in place.
pub open spec fn merged_build_time(old_seconds: u32, new_seconds: u32) -> u32 {
    if new_seconds == 0 {
        old_seconds
    } else {
        new_seconds
    }
}

/// A record with new measurements; everything else stays.
pub open spec fn with_metrics(
    project: ProjectView,
    size: u64,
    target_size: u64,
    build_seconds: u32,
) -> ProjectView {
    ProjectView {
        size_bytes: size,
        target_size_bytes: target_size,
        estimated_build_time_seconds: merged_build_time(
            project.estimated_build_time_seconds,
            build_seconds,
        ),
        ..project
    }
}

/// Whether new measurements differ from what a record holds.
pub open spec fn metrics_changed(
    project: ProjectView,
    size: u64,
    target_size: u64,
    build_seconds: u32,
) -> bool {
    with_metrics(project, size, target_size, build_seconds) != project
}

/// Puts new measurements into a project record. Returns whether anything
/// changed, the record with the new measurements, and the project's name.
pub fn update_project_metrics(
    project: RustProject,
    new_size: FileSize,
    new_target_size: FileSize,
    new_build_time: TimingDuration,
) -> (r: (bool, RustProject, String))
    ensures
        r.0 == metrics_changed(project@, new_size@, new_target_size@, new_build_time@),
        r.1@ == with_metrics(project@, new_size@, new_target_size@, new_build_time@),
        r.2@ == project@.name,
{
    let name = project.name.to_string();
    let old_size = project.size_bytes;
    let old_target_size = project.target_size_bytes;
    let old_build_time = project.estimated_build_time_seconds;
    let updated_build_time = if new_build_time.seconds() == 0 {
        old_build_time
    } else {
        new_build_time
    };
    let mut updated = project;
    updated.size_bytes = new_size;
    updated.target_size_bytes = new_target_size;
    updated.estimated_build_time_seconds = updated_build_time;
    let has_changes = old_size.bytes() != new_size.bytes() || old_target_size.bytes()
        != new_target_size.bytes() || old_build_time.seconds() != updated_build_time.seconds();
    (has_changes, updated, name)
}

/// A record with new sizes and a new time of modification; everything else
/// stays.
pub open spec fn with_sizes(
    project: ProjectView,
    size: u64,
    target_size: u64,
    now: Timestamp,
) -> ProjectView {
    ProjectView { size_bytes: size, target_size_bytes: target_size, last_modified: now, ..project }
}

/// Puts new sizes into a project record and marks it as modified at `now`.
pub fn update_project_size_values(
    project: RustProject,
    size: FileSize,
    target_size: FileSize,
    now: Timestamp,
) -> (r: RustProject)
    ensures
        r@ == with_sizes(project@, size@, target_size@, now),
{
    let mut updated = project;
    updated.size_bytes = size;
    updated.target_size_bytes = target_size;
    updated.last_modified = now;
    updated
}

/// What was measured anew in the directory of a project.
#[derive(Debug)]
pub struct Measurement {
    /// The path of the project.
    pub path: ProjectPath,
    /// Size of everything below the directory.
    pub size: FileSize,
    /// Size of the build output below the directory.
    pub target_size: FileSize,
    /// The estimated build time; 0 where none is known.
    pub build_time: TimingDuration,
    /// The paths that lie below the directory.
    pub descendants: Vec<ProjectPath>,
}

/// What a measurement holds, as mathematical values.
pub struct MeasurementView {
    pub path: Seq<Seq<char>>,
    pub size: u64,
    pub target_size: u64,
    pub build_seconds: u32,
    pub below: Seq<Seq<Seq<char>>>,
}

impl View for Measurement {
    type V = MeasurementView;

    open spec fn view(&self) -> MeasurementView {
        MeasurementView {
            path: self.path@,
            size: self.size@,
            target_size: self.target_size@,
            build_seconds: self.build_time@,
            below: path_views(self.descendants@),
        }
    }
}

impl MeasurementView {
    /// Whether the paths that are given as lying below the project do lie
    /// at or below the project's path.
    pub open spec fn lies_below(self) -> bool {
        all_below(self.path, self.below)
    }
}

/// Whether in each measurement the paths below the project lie at or below
/// the project's path.
pub open spec fn measurements_lie_below(measurements: Seq<MeasurementView>) -> bool {
    forall|i: int| 0 <= i < measurements.len() ==> (#[trigger] measurements[i]).lies_below()
}

/// Whether in each of `measurements` the paths below the project lie at or
/// below the project's path.
pub fn measurements_are_consistent(measurements: &Vec<Measurement>) -> (r: bool)
    ensures
        r == measurements_lie_below(measurement_views(measurements@)),
{
    let mut i: usize = 0;
    while i < measurements.len()
        invariant
            i <= measurements.len(),
            forall|k: int|
                0 <= k < i ==> (#[trigger] measurement_views(measurements@)[k]).lies_below(),
        decreases measurements.len() - i,
    {
        if !paths_lie_below(&measurements[i].path, &measurements[i].descendants) {
            assert(!measurement_views(measurements@)[i as int].lies_below());
            return false;
        }
        i += 1;
    }
    true
}

/// The measurements of a list, as mathematical values.
pub open spec fn measurement_views(measurements: Seq<Measurement>) -> Seq<MeasurementView> {
    Seq::new(measurements.len(), |i: int| measurements[i]@)
}

/// Whether a measurement changes the registry: its project is registered,
/// and what was measured differs from what the record holds.
pub open spec fn measurement_applies(state: RegistryState, m: MeasurementView) -> bool {
    state.projects.contains_key(m.path) && metrics_changed(
        state.projects[m.path],
        m.size,
        m.target_size,
        m.build_seconds,
    )
}

/// The registry after one measurement: a project whose measurements changed
/// is stored again with them, and nothing else changes.
pub open spec fn after_measurement(state: RegistryState, m: MeasurementView) -> RegistryState {
    if measurement_applies(state, m) {
        state.add(
            with_metrics(state.projects[m.path], m.size, m.target_size, m.build_seconds),
            m.below,
        )
    } else {
        state
    }
}

/// The registry after the measurements of a list, one after the other.
pub open spec fn after_measurements(
    state: RegistryState,
    measurements: Seq<MeasurementView>,
) -> RegistryState
    decreases measurements.len(),
{
    if measurements.len() == 0 {
        state
    } else {
        after_measurement(
            after_measurements(state, measurements.drop_last()),
            measurements.last(),
        )
    }
}

/// The names of the projects that the measurements of a list changed, one
/// for each measurement that changed its project, in their order.
pub open spec fn changed_names(
    state: RegistryState,
    measurements: Seq<MeasurementView>,
) -> Seq<Seq<char>>
    decreases measurements.len(),
{
    if measurements.len() == 0 {
        Seq::empty()
    } else {
        let earlier = changed_names(state, measurements.drop_last());
        let reached = after_measurements(state, measurements.drop_last());
        if measurement_applies(reached, measurements.last()) {
            earlier.push(reached.projects[measurements.last().path].name)
        } else {
            earlier
        }
    }
}

/// The names of a list, as their characters.
pub open spec fn name_views(names: Seq<String>) -> Seq<Seq<char>> {
    Seq::new(names.len(), |i: int| names[i]@)
}

/// Brings the measurements of the registered projects up to date.
///
/// Each project whose sizes or build time changed is stored again with the
/// new measurements, at the time `now`, and its part of the path index is
/// rebuilt. A build time of 0 ("unknown") leaves the recorded one in
/// place. Projects that are measured as before, and measurements of paths
/// that are not registered, change nothing. The result names the projects
/// that changed.
pub fn handle_update_projects(
    registry: &mut ProjectRegistry,
    measurements: Vec<Measurement>,
    now: Timestamp,
) -> (r: UpdateResult)
    requires
        old(registry).wf(),
        measurements_lie_below(measurement_views(measurements@)),
    ensures
        final(registry).wf(),
        final(registry).state() == after_measurements(
            old(registry).state(),
            measurement_views(measurements@),
        ),
        final(registry).last_updated_value() == if changed_names(
            old(registry).state(),
            measurement_views(measurements@),
        ).len() > 0 {
            now
        } else {
            old(registry).last_updated_value()
        },
        name_views(r.updated_projects@) == changed_names(
            old(registry).state(),
            measurement_views(measurements@),
        ),
        r.total_updated == r.updated_projects@.len(),
{
    let ghost before = old(registry).state();
    let ghost stamped = old(registry).last_updated_value();
    let ghost all = measurement_views(measurements@);
    let mut names: Vec<String> = Vec::new();
    proof {
        assert(all.take(0) =~= Seq::<MeasurementView>::empty());
        assert(name_views(names@) =~= Seq::<Seq<char>>::empty());
    }
    for measurement in it: measurements
        invariant
            registry.wf(),
            all == measurement_views(it.seq()),
            measurements_lie_below(all),
            registry.last_updated_value() == if name_views(names@).len() > 0 {
                now
            } else {
                stamped
            },
            registry.state() == after_measurements(before, all.take(it.index() as int)),
            name_views(names@) == changed_names(before, all.take(it.index() as int)),
    {
        let ghost seen = name_views(names@);
        proof {
            assert(all.take(it.index() + 1).drop_last() =~= all.take(it.index() as int));
            assert(all.take(it.index() + 1).last() == measurement@);
            assert(all[it.index() as int].lies_below());
        }
        let held = match registry.get(&measurement.path) {
            Some(project) => Some(project.clone()),
            None => None,
        };
        if let Some(project) = held {
            let (changed, updated, name) = update_project_metrics(
                project,
                measurement.size,
                measurement.target_size,
                measurement.build_time,
            );
            if changed {
                proof {
                    registry.lemma_identities_distinct();
                }
                registry.add_project_at(updated, &measurement.descendants, now);
                names.push(name);
                assert(name_views(names@) =~= seen.push(name@));
            }
        }
    }
    assert(all.take(all.len() as int) =~= all);
    UpdateResult::from(names)
}

} // verus!
