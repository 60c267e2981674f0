//! What can go wrong in the library.

use crate::text::{concat_str, decimal};
use crate::types::values::{ProjectId, WatcherName};
use vstd::prelude::*;
use vstd::string::StringExecFns;

verus! {

/// What can fail. A failure of the filesystem or of another crate is held
/// by its message.
#[derive(Debug)]
#[allow(inconsistent_fields)]
pub enum ProjectsError {
    Io { message: String },
    Serialization { message: String },
    RonSpanned { message: String },
    CargoMetadata { message: String },
    FileWatching { message: String },
    ProjectNotFound { id: ProjectId },
    WatcherNotFound { name: WatcherName },
    RegistryNotFound { path: String },
    InvalidProjectName { name: String },
    InvalidFileSize { size: String },
    ConfigDirectoryNotFound,
    CargoCommandFailed { stderr: String },
    BuildTimeParsingError { message: String },
    ParseError { message: String },
    CacheNotFound { message: String },
    BuildError { message: String },
    Generic { message: String },
}

pub type ProjectsResult<T> = Result<T, ProjectsError>;

impl ProjectsError {
    /// The text of an error.
    pub open spec fn text(self) -> Seq<char> {
        match self {
            ProjectsError::Io { message } => "I/O error: "@ + message@,
            ProjectsError::Serialization { message } => "Serialization error: "@ + message@,
            ProjectsError::RonSpanned { message } => "RON parsing error: "@ + message@,
            ProjectsError::CargoMetadata { message } => "Cargo metadata error: "@ + message@,
            ProjectsError::FileWatching { message } => "File watching error: "@ + message@,
            ProjectsError::ProjectNotFound { id } => "Project not found with ID: "@ + decimal(
                id@ as nat,
            ),
            ProjectsError::WatcherNotFound { name } => "Watcher not found: "@ + name@,
            ProjectsError::RegistryNotFound { path } => "Registry file not found at: "@ + path@,
            ProjectsError::InvalidProjectName { name } => "Invalid project name: "@ + name@,
            ProjectsError::InvalidFileSize { size } => "Invalid file size: "@ + size@,
            ProjectsError::ConfigDirectoryNotFound => "Config directory not found"@,
            ProjectsError::CargoCommandFailed { stderr } => "Cargo command failed: "@ + stderr@,
            ProjectsError::BuildTimeParsingError { message } => "Build time parsing error: "@
                + message@,
            ProjectsError::ParseError { message } => "Parse error: "@ + message@,
            ProjectsError::CacheNotFound { message } => "Cache not found: "@ + message@,
            ProjectsError::BuildError { message } => "Build error: "@ + message@,
            ProjectsError::Generic { message } => "Generic error: "@ + message@,
        }
    }

    /// The message of this error, as it is shown to the user.
    pub fn to_string(&self) -> (s: String)
        ensures
            s@ == self.text(),
    {
        match self {
            ProjectsError::Io { message } => concat_str("I/O error: ", message.as_str()),
            ProjectsError::Serialization { message } => concat_str(
                "Serialization error: ",
                message.as_str(),
            ),
            ProjectsError::RonSpanned { message } => concat_str(
                "RON parsing error: ",
                message.as_str(),
            ),
            ProjectsError::CargoMetadata { message } => concat_str(
                "Cargo metadata error: ",
                message.as_str(),
            ),
            ProjectsError::FileWatching { message } => concat_str(
                "File watching error: ",
                message.as_str(),
            ),
            ProjectsError::ProjectNotFound { id } => concat_str(
                "Project not found with ID: ",
                id.to_string().as_str(),
            ),
            ProjectsError::WatcherNotFound { name } => concat_str(
                "Watcher not found: ",
                name.as_str(),
            ),
            ProjectsError::RegistryNotFound { path } => concat_str(
                "Registry file not found at: ",
                path.as_str(),
            ),
            ProjectsError::InvalidProjectName { name } => concat_str(
                "Invalid project name: ",
                name.as_str(),
            ),
            ProjectsError::InvalidFileSize { size } => concat_str(
                "Invalid file size: ",
                size.as_str(),
            ),
            ProjectsError::ConfigDirectoryNotFound => String::from_str(
                "Config directory not found",
            ),
            ProjectsError::CargoCommandFailed { stderr } => concat_str(
                "Cargo command failed: ",
                stderr.as_str(),
            ),
            ProjectsError::BuildTimeParsingError { message } => concat_str(
                "Build time parsing error: ",
                message.as_str(),
            ),
            ProjectsError::ParseError { message } => concat_str("Parse error: ", message.as_str()),
            ProjectsError::CacheNotFound { message } => concat_str(
                "Cache not found: ",
                message.as_str(),
            ),
            ProjectsError::BuildError { message } => concat_str("Build error: ", message.as_str()),
            ProjectsError::Generic { message } => concat_str("Generic error: ", message.as_str()),
        }
    }

    /// A general error with the given message.
    pub fn from_message(message: &str) -> (e: ProjectsError)
        ensures
            e matches ProjectsError::Generic { message: m } && m@ == message@,
    {
        ProjectsError::Generic { message: message.to_owned() }
    }
}

} // verus!
