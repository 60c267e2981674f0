//! The configuration of the program.

use crate::types::errors::ProjectsError;
use crate::types::path::ProjectPath;
use vstd::prelude::*;

verus! {

/// Where the program keeps its registries, and how it scans.
#[derive(Debug)]
pub struct AppConfig {
    pub registry_path: ProjectPath,
    pub watcher_registry_path: ProjectPath,
    pub max_scan_depth: Option<usize>,
    pub thread_count: Option<usize>,
    pub cache_build_times: bool,
    pub ignore_target_dirs: bool,
}

/// The directory in which the program keeps its files: `cargo-projects`
/// below the user's configuration directory, or below the current directory
/// where the user has none.
pub open spec fn program_directory(config_dir: Option<ProjectPath>) -> Seq<Seq<char>> {
    match config_dir {
        Some(dir) => dir@.push("cargo-projects"@),
        None => seq!["."@, "cargo-projects"@],
    }
}

impl AppConfig {
    /// The configuration that holds where none was saved: both registries
    /// in the program's directory, scans ten levels deep, threads as the
    /// machine offers, build times cached and build output left out.
    pub fn default_in(config_dir: &Option<ProjectPath>) -> (r: AppConfig)
        ensures
            r.registry_path@ == program_directory(*config_dir).push("registry.ron"@),
            r.watcher_registry_path@ == program_directory(*config_dir).push("watchers.ron"@),
            r.max_scan_depth == Some(10usize),
            r.thread_count is None,
            r.cache_build_times,
            r.ignore_target_dirs,
    {
        let base = match config_dir {
            Some(dir) => dir.join("cargo-projects"),
            None => {
                let here = ProjectPath::new().join(".").join("cargo-projects");
                assert(here@ =~= seq!["."@, "cargo-projects"@]);
                here
            },
        };
        AppConfig {
            registry_path: base.join("registry.ron"),
            watcher_registry_path: base.join("watchers.ron"),
            max_scan_depth: Some(10),
            thread_count: None,
            cache_build_times: true,
            ignore_target_dirs: true,
        }
    }

    /// Where the project registry and the watcher registry are kept.
    pub fn get_registry_paths(&self) -> (r: (ProjectPath, ProjectPath))
        ensures
            r.0@ == self.registry_path@,
            r.1@ == self.watcher_registry_path@,
    {
        (self.registry_path.clone(), self.watcher_registry_path.clone())
    }
}

/// Where the configuration itself is kept: `config.ron` in `cargo-projects`
/// below the user's configuration directory. Without such a directory there
/// is no place for it.
pub fn config_file_path(config_dir: &Option<ProjectPath>) -> (r: Result<ProjectPath, ProjectsError>)
    ensures
        match r {
            Ok(path) => config_dir is Some && path@ == config_dir->0@.push("cargo-projects"@).push(
                "config.ron"@,
            ),
            Err(e) => config_dir is None && e is ConfigDirectoryNotFound,
        },
{
    match config_dir {
        Some(dir) => Ok(dir.join("cargo-projects").join("config.ron")),
        None => Err(ProjectsError::ConfigDirectoryNotFound),
    }
}

} // verus!
