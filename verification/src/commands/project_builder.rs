//! Building a project record from what was found in its directory.

use crate::external::current_time;
use crate::types::errors::ProjectsError;
use crate::types::path::ProjectPath;
use crate::types::project::{ProjectView, RustProject};
use crate::types::values::{
    DependencyCount, FileSize, ProjectId, ProjectName, ProjectType, ProjectVersion, Timestamp,
    TimingDuration,
};
use vstd::prelude::*;
use vstd::string::StringExecFns;

verus! {

/// The root package of a resolved manifest.
#[derive(Debug)]
pub struct PackageInfo {
    pub name: String,
    pub version: String,
    pub dependency_count: usize,
}

/// What resolving a manifest told.
#[derive(Debug)]
pub struct ManifestInfo {
    /// The package at the root of the manifest, if it declares one.
    pub root_package: Option<PackageInfo>,
    /// How many members the workspace has.
    pub workspace_member_count: usize,
    /// The package name that the workspace declares for its members, if any.
    pub workspace_name: Option<String>,
}

/// What was read and measured in a project's directory.
#[derive(Debug)]
pub struct DirectoryFacts {
    /// The last component of the directory's path, where it has one.
    pub dir_name: Option<String>,
    /// The package name as the manifest file itself gives it, where it could
    /// be read without resolving the manifest.
    pub manifest_name: Option<String>,
    /// When the manifest file was last modified, or why that cannot be told.
    pub manifest_modified: Result<Timestamp, String>,
    /// Size of everything below the directory.
    pub size_bytes: FileSize,
    /// Size of the build output below the directory.
    pub target_size_bytes: FileSize,
    /// The estimated build time; 0 where none is known.
    pub build_time: TimingDuration,
}

/// The kind of a project whose manifest has a root package, or not, and has
/// workspace members, or not:
/// a package alone is a `Package`, members alone are a `PureWorkspace`, both
/// are a `WorkspaceWithPackage`, and neither is `Malformed`.
pub open spec fn project_kind(has_root_package: bool, has_members: bool) -> ProjectType {
    if has_root_package && !has_members {
        ProjectType::Package
    } else if !has_root_package && has_members {
        ProjectType::PureWorkspace
    } else if has_root_package && has_members {
        ProjectType::WorkspaceWithPackage
    } else {
        ProjectType::Malformed
    }
}

/// The kind of a project, going by its manifest: a manifest that could not
/// be resolved makes the project `Malformed`.
pub open spec fn manifest_kind(manifest: Option<ManifestInfo>) -> ProjectType {
    match manifest {
        Some(info) => project_kind(info.root_package is Some, info.workspace_member_count > 0),
        None => ProjectType::Malformed,
    }
}

/// Classifies a project by its manifest, `None` standing for a manifest that
/// could not be resolved.
pub fn determine_project_type(manifest: &Option<ManifestInfo>) -> (r: ProjectType)
    ensures
        r == manifest_kind(*manifest),
{
    match manifest {
        Some(info) => {
            let has_root_package = info.root_package.is_some();
            let has_members = info.workspace_member_count > 0;
            if has_root_package && !has_members {
                ProjectType::Package
            } else if !has_root_package && has_members {
                ProjectType::PureWorkspace
            } else if has_root_package && has_members {
                ProjectType::WorkspaceWithPackage
            } else {
                ProjectType::Malformed
            }
        },
        None => ProjectType::Malformed,
    }
}

/// The first name there is, or the placeholder.
pub open spec fn first_name(
    preferred: Option<String>,
    dir_name: Option<String>,
    placeholder: Seq<char>,
) -> Seq<char> {
    match preferred {
        Some(name) => name@,
        None => match dir_name {
            Some(name) => name@,
            None => placeholder,
        },
    }
}

/// The time to record as a manifest's last modification: the time read, or
/// `now` where none could be read.
pub open spec fn modified_or(modified: Result<Timestamp, String>, now: Timestamp) -> Timestamp {
    match modified {
        Ok(at) => at,
        Err(_) => now,
    }
}

/// The record of a project whose manifest is of no use: placeholder name and
/// version, no dependencies and no build time, but the sizes as measured.
pub open spec fn malformed_record(
    path: Seq<Seq<char>>,
    facts: DirectoryFacts,
    now: Timestamp,
) -> ProjectView {
    ProjectView {
        id: 0,
        name: first_name(facts.manifest_name, facts.dir_name, "unknown-project"@),
        path,
        version: "unknown"@,
        created_at: now,
        last_modified: modified_or(facts.manifest_modified, now),
        size_bytes: facts.size_bytes@,
        target_size_bytes: facts.target_size_bytes@,
        dependencies_count: 0,
        estimated_build_time_seconds: 0,
        project_type: ProjectType::Malformed,
    }
}

/// The record of a project with a root package: name, version and number of
/// dependencies are the package's.
pub open spec fn package_record(
    path: Seq<Seq<char>>,
    project_type: ProjectType,
    package: PackageInfo,
    modified: Timestamp,
    facts: DirectoryFacts,
    now: Timestamp,
) -> ProjectView {
    ProjectView {
        id: 0,
        name: package.name@,
        path,
        version: package.version@,
        created_at: now,
        last_modified: modified,
        size_bytes: facts.size_bytes@,
        target_size_bytes: facts.target_size_bytes@,
        dependencies_count: package.dependency_count,
        estimated_build_time_seconds: facts.build_time@,
        project_type,
    }
}

/// The record of a workspace without a root package: named as the workspace
/// says, or after its directory.
pub open spec fn workspace_record(
    path: Seq<Seq<char>>,
    workspace_name: Option<String>,
    modified: Timestamp,
    facts: DirectoryFacts,
    now: Timestamp,
) -> ProjectView {
    ProjectView {
        id: 0,
        name: first_name(workspace_name, facts.dir_name, "unknown-workspace"@),
        path,
        version: "workspace"@,
        created_at: now,
        last_modified: modified,
        size_bytes: facts.size_bytes@,
        target_size_bytes: facts.target_size_bytes@,
        dependencies_count: 0,
        estimated_build_time_seconds: facts.build_time@,
        project_type: ProjectType::PureWorkspace,
    }
}

/// The first name there is, or the placeholder.
fn pick_name(preferred: &Option<String>, dir_name: &Option<String>, placeholder: &str) -> (r:
    String)
    ensures
        r@ == first_name(*preferred, *dir_name, placeholder@),
{
    match preferred {
        Some(name) => name.clone(),
        None => match dir_name {
            Some(name) => name.clone(),
            None => placeholder.to_owned(),
        },
    }
}

/// The workspace name of a manifest, where it was resolved and declares one.
pub open spec fn declared_workspace_name(manifest: Option<ManifestInfo>) -> Option<String> {
    match manifest {
        Some(info) => info.workspace_name,
        None => None,
    }
}

/// Builds the record of a project whose manifest is of no use.
pub fn create_malformed_project(path: &ProjectPath, facts: &DirectoryFacts, now: Timestamp) -> (r:
    RustProject)
    ensures
        r@ == malformed_record(path@, *facts, now),
{
    let last_modified = match &facts.manifest_modified {
        Ok(at) => *at,
        Err(_) => now,
    };
    RustProject {
        id: ProjectId::new(0),
        name: ProjectName::new(pick_name(&facts.manifest_name, &facts.dir_name, "unknown-project")),
        path: path.clone(),
        version: ProjectVersion::new(String::from_str("unknown")),
        created_at: now,
        last_modified,
        size_bytes: facts.size_bytes,
        target_size_bytes: facts.target_size_bytes,
        dependencies_count: DependencyCount::new(0),
        estimated_build_time_seconds: TimingDuration::new(0),
        project_type: ProjectType::Malformed,
    }
}

/// What `create_package_project` builds: the package's record where the
/// manifest has a root package and the manifest file's time could be read,
/// the record of a malformed project otherwise.
pub open spec fn package_or_malformed(
    path: Seq<Seq<char>>,
    project_type: ProjectType,
    manifest: Option<ManifestInfo>,
    facts: DirectoryFacts,
    now: Timestamp,
) -> ProjectView {
    match manifest {
        Some(info) => match (info.root_package, facts.manifest_modified) {
            (Some(package), Ok(modified)) => package_record(
                path,
                project_type,
                package,
                modified,
                facts,
                now,
            ),
            _ => malformed_record(path, facts, now),
        },
        None => malformed_record(path, facts, now),
    }
}

/// Builds the record of a project with a root package. Where the package or
/// the manifest file's time is missing, the project is recorded as
/// malformed instead.
pub fn create_package_project(
    path: &ProjectPath,
    project_type: ProjectType,
    manifest: &Option<ManifestInfo>,
    facts: &DirectoryFacts,
    now: Timestamp,
) -> (r: RustProject)
    ensures
        r@ == package_or_malformed(path@, project_type, *manifest, *facts, now),
{
    match manifest {
        Some(info) => match (&info.root_package, &facts.manifest_modified) {
            (Some(package), Ok(modified)) => RustProject {
                id: ProjectId::new(0),
                name: ProjectName::new(package.name.clone()),
                path: path.clone(),
                version: ProjectVersion::new(package.version.clone()),
                created_at: now,
                last_modified: *modified,
                size_bytes: facts.size_bytes,
                target_size_bytes: facts.target_size_bytes,
                dependencies_count: DependencyCount::new(package.dependency_count),
                estimated_build_time_seconds: facts.build_time,
                project_type,
            },
            _ => create_malformed_project(path, facts, now),
        },
        None => create_malformed_project(path, facts, now),
    }
}

/// Builds the record of a workspace without a root package. Fails with the
/// I/O error where the manifest file's time could not be read.
pub fn create_workspace_project(
    path: &ProjectPath,
    manifest: &Option<ManifestInfo>,
    facts: &DirectoryFacts,
    now: Timestamp,
) -> (r: Result<RustProject, ProjectsError>)
    ensures
        match r {
            Ok(project) => facts.manifest_modified is Ok && project@ == workspace_record(
                path@,
                declared_workspace_name(*manifest),
                facts.manifest_modified->Ok_0,
                *facts,
                now,
            ),
            Err(e) => {
                &&& facts.manifest_modified is Err
                &&& e matches ProjectsError::Io { message }
                &&& message@ == facts.manifest_modified->Err_0@
            },
        },
{
    let name = match manifest {
        Some(info) => pick_name(&info.workspace_name, &facts.dir_name, "unknown-workspace"),
        None => pick_name(&None, &facts.dir_name, "unknown-workspace"),
    };
    match &facts.manifest_modified {
        Ok(modified) => Ok(
            RustProject {
                id: ProjectId::new(0),
                name: ProjectName::new(name),
                path: path.clone(),
                version: ProjectVersion::new(String::from_str("workspace")),
                created_at: now,
                last_modified: *modified,
                size_bytes: facts.size_bytes,
                target_size_bytes: facts.target_size_bytes,
                dependencies_count: DependencyCount::new(0),
                estimated_build_time_seconds: facts.build_time,
                project_type: ProjectType::PureWorkspace,
            },
        ),
        Err(message) => Err(ProjectsError::Io { message: message.clone() }),
    }
}

/// What building a project gives, by the kind of its manifest.
pub open spec fn built_record(
    path: Seq<Seq<char>>,
    manifest: Option<ManifestInfo>,
    facts: DirectoryFacts,
    now: Timestamp,
) -> Option<ProjectView> {
    match manifest_kind(manifest) {
        ProjectType::Package => Some(
            package_or_malformed(path, ProjectType::Package, manifest, facts, now),
        ),
        ProjectType::WorkspaceWithPackage => Some(
            package_or_malformed(path, ProjectType::WorkspaceWithPackage, manifest, facts, now),
        ),
        ProjectType::PureWorkspace => match facts.manifest_modified {
            Ok(modified) => Some(
                workspace_record(path, declared_workspace_name(manifest), modified, facts, now),
            ),
            Err(_) => None,
        },
        ProjectType::Malformed => Some(malformed_record(path, facts, now)),
    }
}

/// Builds the record of the project in the directory `path`, created at
/// `now`, from its manifest (`None` where the manifest could not be
/// resolved) and from what was measured in the directory.
///
/// Only a workspace whose manifest file cannot be read fails; a manifest
/// that does not resolve gives a malformed project with its sizes.
pub fn create_project_at(
    path: &ProjectPath,
    manifest: &Option<ManifestInfo>,
    facts: &DirectoryFacts,
    now: Timestamp,
) -> (r: Result<RustProject, ProjectsError>)
    ensures
        match r {
            Ok(project) => built_record(path@, *manifest, *facts, now) == Some(project@),
            Err(e) => {
                &&& built_record(path@, *manifest, *facts, now) is None
                &&& e matches ProjectsError::Io { message }
                &&& message@ == facts.manifest_modified->Err_0@
            },
        },
        manifest is None ==> r is Ok && r->Ok_0@ == malformed_record(path@, *facts, now),
{
    match determine_project_type(manifest) {
        ProjectType::Package => Ok(
            create_package_project(path, ProjectType::Package, manifest, facts, now),
        ),
        ProjectType::WorkspaceWithPackage => Ok(
            create_package_project(path, ProjectType::WorkspaceWithPackage, manifest, facts, now),
        ),
        ProjectType::PureWorkspace => create_workspace_project(path, manifest, facts, now),
        ProjectType::Malformed => Ok(create_malformed_project(path, facts, now)),
    }
}

/// Builds the record of the project in the directory `path`, created at the
/// current time. See `create_project_at` for what is built; a record that
/// was built agrees with it on everything but the times taken from the
/// clock.
pub fn create_project_from_path(
    path: &ProjectPath,
    manifest: &Option<ManifestInfo>,
    facts: &DirectoryFacts,
) -> (r: Result<RustProject, ProjectsError>)
    ensures
        r is Ok <==> !(manifest_kind(*manifest) == ProjectType::PureWorkspace
            && facts.manifest_modified is Err),
        r is Ok ==> exists|now: Timestamp|
            built_record(path@, *manifest, *facts, now) == Some(r->Ok_0@),
        r matches Err(e) ==> e matches ProjectsError::Io { message } && message@
            == facts.manifest_modified->Err_0@,
{
    let now = current_time();
    create_project_at(path, manifest, facts, now)
}

} // verus!
