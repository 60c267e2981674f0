//! The data model: identifiers, project records, paths and the registries.

pub mod errors;
pub mod keyed;
pub mod path;
pub mod path_index;
pub mod project;
pub mod registry;
pub mod registry_state;
pub mod values;
pub mod watchers;

pub use errors::{ProjectsError, ProjectsResult};
pub use path::ProjectPath;
pub use path_index::{paths_lie_below, IndexEntry, IndexEntryView};
pub use project::{ProjectView, RustProject, WatcherConfig, WatcherView};
pub use registry::{ProjectRegistry, RegistryParts, ResolvedPath};
pub use registry_state::{
    batch_is_consistent, DiscoveredProject, DiscoveredView, RegistryState,
};
pub use values::{
    DependencyCount, FileSize, ProjectId, ProjectName, ProjectType, ProjectVersion, Timestamp,
    TimingDuration, WatcherName,
};
pub use watchers::{WatcherParts, WatcherRegistry};
