//! Cleaning the build output of a project.

use crate::types::errors::ProjectsError;
use crate::types::project::RustProject;
use crate::types::registry::{has_id, path_with_id, ProjectRegistry};
use crate::types::values::{ProjectId, ProjectName};
use vstd::prelude::*;

verus! {

/// The project to clean: the one with the identity `id`. Without such a
/// project there is nothing to clean, and the identity is reported as not
/// found.
pub fn project_to_clean(registry: &ProjectRegistry, id: ProjectId) -> (r: Result<
    RustProject,
    ProjectsError,
>)
    requires
        registry.wf(),
    ensures
        match r {
            Ok(project) => has_id(registry.by_path(), id@) && project@
                == registry.by_path()[path_with_id(registry.by_path(), id@)],
            Err(e) => {
                &&& !has_id(registry.by_path(), id@)
                &&& e matches ProjectsError::ProjectNotFound { id: missing }
                &&& missing == id
            },
        },
{
    match registry.find_by_id(id) {
        Some(project) => Ok(project),
        None => Err(ProjectsError::ProjectNotFound { id }),
    }
}

/// What cleaning a project comes to once `cargo clean` has run: the
/// project's name where it succeeded, and what it wrote to its error output
/// where it failed.
pub fn clean_outcome(name: &ProjectName, succeeded: bool, stderr: &str) -> (r: Result<
    String,
    ProjectsError,
>)
    ensures
        match r {
            Ok(cleaned) => succeeded && cleaned@ == name@,
            Err(e) => {
                &&& !succeeded
                &&& e matches ProjectsError::CargoCommandFailed { stderr: text }
                &&& text@ == stderr@
            },
        },
{
    if succeeded {
        Ok(name.to_string())
    } else {
        Err(ProjectsError::CargoCommandFailed { stderr: stderr.to_owned() })
    }
}

} // verus!
