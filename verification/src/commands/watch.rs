//! Watching a directory: what a change on disk leads to.

use crate::commands::update::{update_project_size_values, with_sizes};
use crate::text::str_eq;
use crate::types::errors::ProjectsError;
use crate::types::path::ProjectPath;
use crate::types::path_index::all_below;
use crate::types::project::{path_views, ProjectView, RustProject, WatcherConfig, WatcherView};
use crate::types::registry::ProjectRegistry;
use crate::types::registry_state::RegistryState;
use crate::types::values::{FileSize, Timestamp, WatcherName};
use vstd::prelude::*;
use vstd::string::StringExecFns;

verus! {

/// What happened to a path.
#[derive(Debug, Clone, Copy, PartialEq, Eq, Structural)]
pub enum ChangeKind {
    Create,
    Modify,
    Remove,
    /// Anything else, such as a file being read.
    Other,
}

/// A change on disk, as the watcher reports it once changes have settled.
#[derive(Debug)]
pub struct WatchEvent {
    pub path: ProjectPath,
    pub kind: ChangeKind,
}

/// What to do about a change on disk.
#[derive(Debug)]
pub enum WatchAction {
    /// Build the project in the directory `path` and store it.
    AddProject { path: ProjectPath },
    /// Measure `project` again and store it.
    RefreshProject { project: RustProject },
    /// A manifest appeared in a directory that the index does not hold:
    /// report that no project was found.
    ProjectNotFound,
    /// Nothing.
    Ignore,
}

/// What to do about a change on disk, as mathematical values.
pub enum PlannedAction {
    AddProject { path: Seq<Seq<char>> },
    RefreshProject { project: ProjectView },
    ProjectNotFound,
    Ignore,
}

impl View for WatchAction {
    type V = PlannedAction;

    open spec fn view(&self) -> PlannedAction {
        match self {
            WatchAction::AddProject { path } => PlannedAction::AddProject { path: path@ },
            WatchAction::RefreshProject { project } => PlannedAction::RefreshProject {
                project: project@,
            },
            WatchAction::ProjectNotFound => PlannedAction::ProjectNotFound,
            WatchAction::Ignore => PlannedAction::Ignore,
        }
    }
}

/// Whether a change is the creation of a manifest file.
pub open spec fn is_manifest_creation(path: Seq<Seq<char>>, kind: ChangeKind) -> bool {
    kind == ChangeKind::Create && path.len() > 0 && path.last() == "Cargo.toml"@
}

/// What a change on disk leads to.
///
/// A new manifest makes its directory a project to add, provided the index
/// files that directory under a registered project; without that, no
/// project is found. Any other creation, modification or removal refreshes
/// the project that owns the path, if there is one. Everything else is
/// ignored.
pub open spec fn planned_action(
    state: RegistryState,
    path: Seq<Seq<char>>,
    kind: ChangeKind,
) -> PlannedAction {
    if is_manifest_creation(path, kind) {
        if state.indexed_project(path.drop_last()) is Some {
            PlannedAction::AddProject { path: path.drop_last() }
        } else {
            PlannedAction::ProjectNotFound
        }
    } else if kind == ChangeKind::Create || kind == ChangeKind::Modify || kind
        == ChangeKind::Remove {
        match state.owner(path) {
            Some(project) => PlannedAction::RefreshProject { project },
            None => PlannedAction::Ignore,
        }
    } else {
        PlannedAction::Ignore
    }
}

/// Whether `event` reports that a manifest file was created.
pub fn is_new_manifest(event: &WatchEvent) -> (r: bool)
    ensures
        r == is_manifest_creation(event.path@, event.kind),
{
    match event.kind {
        ChangeKind::Create => match event.path.file_name() {
            Some(name) => str_eq(name.as_str(), "Cargo.toml"),
            None => false,
        },
        _ => false,
    }
}

/// Decides what to do about `event`.
pub fn plan_event(registry: &ProjectRegistry, event: &WatchEvent) -> (r: WatchAction)
    requires
        registry.wf(),
    ensures
        r@ == planned_action(registry.state(), event.path@, event.kind),
{
    if is_new_manifest(event) {
        match event.path.parent() {
            Some(directory) => match registry.find_by_path(&directory) {
                Some(_) => WatchAction::AddProject { path: directory },
                None => WatchAction::ProjectNotFound,
            },
            None => WatchAction::ProjectNotFound,
        }
    } else {
        match event.kind {
            ChangeKind::Create | ChangeKind::Modify | ChangeKind::Remove => {
                match registry.find_containing_project(&event.path) {
                    Some(project) => WatchAction::RefreshProject { project },
                    None => WatchAction::Ignore,
                }
            },
            ChangeKind::Other => WatchAction::Ignore,
        }
    }
}

/// The error to report where a manifest appeared but no project was found.
pub fn project_not_found() -> (e: ProjectsError)
    ensures
        e matches ProjectsError::Generic { message } && message@ == "Project not found"@,
{
    ProjectsError::Generic { message: String::from_str("Project not found") }
}

/// Stores `project` again with the sizes that were measured anew, marked as
/// modified at `now`, and rebuilds its part of the index from
/// `descendants`. A project that the registry does not hold (any more) is
/// not stored; the result says whether the project was stored.
pub fn update_project_size_if_exists(
    registry: &mut ProjectRegistry,
    project: RustProject,
    size: FileSize,
    target_size: FileSize,
    descendants: &Vec<ProjectPath>,
    now: Timestamp,
) -> (r: bool)
    requires
        old(registry).wf(),
        all_below(project@.path, path_views(descendants@)),
    ensures
        final(registry).wf(),
        r == old(registry).by_path().contains_key(project@.path),
        r ==> final(registry).state() == old(registry).state().add(
            with_sizes(project@, size@, target_size@, now),
            path_views(descendants@),
        ) && final(registry).last_updated_value() == now,
        !r ==> final(registry).state() == old(registry).state()
            && final(registry).last_updated_value() == old(registry).last_updated_value(),
{
    if registry.contains_path(&project.path) {
        let updated = update_project_size_values(project, size, target_size, now);
        registry.add_project_at(updated, descendants, now);
        true
    } else {
        false
    }
}

/// The name to watch a directory under: the name that was asked for, or the
/// directory's own name, or `unnamed`.
pub fn watcher_name_or_default(name: Option<WatcherName>, dir_name: Option<&str>) -> (r:
    WatcherName)
    ensures
        r@ == match name {
            Some(given) => given@,
            None => match dir_name {
                Some(dir) => dir@,
                None => "unnamed"@,
            },
        },
{
    match name {
        Some(given) => given,
        None => match dir_name {
            Some(dir) => WatcherName::new(dir.to_owned()),
            None => WatcherName::new(String::from_str("unnamed")),
        },
    }
}

/// The record of a directory that is watched from `now` on.
pub fn create_new_watcher_config(name: &WatcherName, path: &ProjectPath, now: Timestamp) -> (r:
    WatcherConfig)
    ensures
        r@ == (WatcherView { name: name@, path: path@, created_at: now }),
{
    WatcherConfig { name: name.clone(), path: path.clone(), created_at: now }
}

/// Refuses what watching cannot do yet: watching the whole system.
pub fn check_watch_request(system_wide: bool) -> (r: Result<(), ProjectsError>)
    ensures
        match r {
            Ok(_) => !system_wide,
            Err(e) => {
                &&& system_wide
                &&& e matches ProjectsError::Generic { message }
                &&& message@
                    == "System-wide monitoring not yet implemented. Use --project-path for now."@
            },
        },
{
    if system_wide {
        Err(
            ProjectsError::Generic {
                message: String::from_str(
                    "System-wide monitoring not yet implemented. Use --project-path for now.",
                ),
            },
        )
    } else {
        Ok(())
    }
}

} // verus!
