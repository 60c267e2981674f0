//! Project and watcher records.

use crate::types::path::ProjectPath;
use crate::types::values::{
    DependencyCount, FileSize, ProjectId, ProjectName, ProjectType, ProjectVersion, Timestamp,
    TimingDuration, WatcherName,
};
use vstd::prelude::*;

verus! {

/// One tracked project.
#[derive(Debug)]
pub struct RustProject {
    pub id: ProjectId,
    pub name: ProjectName,
    pub path: ProjectPath,
    pub version: ProjectVersion,
    pub created_at: Timestamp,
    pub last_modified: Timestamp,
    pub size_bytes: FileSize,
    pub target_size_bytes: FileSize,
    pub dependencies_count: DependencyCount,
    pub estimated_build_time_seconds: TimingDuration,
    pub project_type: ProjectType,
}

/// What a project record holds, as mathematical values.
pub struct ProjectView {
    pub id: u32,
    pub name: Seq<char>,
    pub path: Seq<Seq<char>>,
    pub version: Seq<char>,
    pub created_at: Timestamp,
    pub last_modified: Timestamp,
    pub size_bytes: u64,
    pub target_size_bytes: u64,
    pub dependencies_count: usize,
    pub estimated_build_time_seconds: u32,
    pub project_type: ProjectType,
}

impl ProjectView {
    /// The same record under another identity.
    pub open spec fn with_id(self, id: u32) -> ProjectView {
        ProjectView { id, ..self }
    }
}

impl View for RustProject {
    type V = ProjectView;

    open spec fn view(&self) -> ProjectView {
        ProjectView {
            id: self.id@,
            name: self.name@,
            path: self.path@,
            version: self.version@,
            created_at: self.created_at,
            last_modified: self.last_modified,
            size_bytes: self.size_bytes@,
            target_size_bytes: self.target_size_bytes@,
            dependencies_count: self.dependencies_count@,
            estimated_build_time_seconds: self.estimated_build_time_seconds@,
            project_type: self.project_type,
        }
    }
}

impl Clone for RustProject {
    fn clone(&self) -> (r: Self)
        ensures
            r@ == self@,
    {
        RustProject {
            id: self.id,
            name: self.name.clone(),
            path: self.path.clone(),
            version: self.version.clone(),
            created_at: self.created_at,
            last_modified: self.last_modified,
            size_bytes: self.size_bytes,
            target_size_bytes: self.target_size_bytes,
            dependencies_count: self.dependencies_count,
            estimated_build_time_seconds: self.estimated_build_time_seconds,
            project_type: self.project_type,
        }
    }
}

/// The records of a list, as mathematical values.
pub open spec fn project_views(projects: Seq<RustProject>) -> Seq<ProjectView> {
    Seq::new(projects.len(), |i: int| projects[i]@)
}

/// The paths of a list, as mathematical values.
pub open spec fn path_views(paths: Seq<ProjectPath>) -> Seq<Seq<Seq<char>>> {
    Seq::new(paths.len(), |i: int| paths[i]@)
}

/// A directory that is watched for projects.
#[derive(Debug)]
pub struct WatcherConfig {
    pub name: WatcherName,
    pub path: ProjectPath,
    pub created_at: Timestamp,
}

/// What a watcher record holds, as mathematical values.
pub struct WatcherView {
    pub name: Seq<char>,
    pub path: Seq<Seq<char>>,
    pub created_at: Timestamp,
}

impl View for WatcherConfig {
    type V = WatcherView;

    open spec fn view(&self) -> WatcherView {
        WatcherView { name: self.name@, path: self.path@, created_at: self.created_at }
    }
}

impl Clone for WatcherConfig {
    fn clone(&self) -> (r: Self)
        ensures
            r@ == self@,
    {
        WatcherConfig {
            name: self.name.clone(),
            path: self.path.clone(),
            created_at: self.created_at,
        }
    }
}

/// The records of a list, as mathematical values.
pub open spec fn watcher_views(watchers: Seq<WatcherConfig>) -> Seq<WatcherView> {
    Seq::new(watchers.len(), |i: int| watchers[i]@)
}

} // verus!
