use cargo_projects::commands::{handle_list_projects, handle_update_projects, Measurement};
use cargo_projects::output::format_build_time;
use cargo_projects::types::{
    DependencyCount, FileSize, ProjectId, ProjectName, ProjectPath, ProjectRegistry, ProjectType,
    ProjectVersion, RustProject, Timestamp, TimingDuration, WatcherConfig, WatcherName,
    WatcherRegistry,
};

fn path(components: &[&str]) -> ProjectPath {
    ProjectPath::from_components(components.iter().map(|c| c.to_string()).collect())
}

fn create_test_project(name: &str, path: ProjectPath) -> RustProject {
    RustProject {
        id: ProjectId::new(0),
        name: ProjectName::new(name.to_string()),
        path,
        version: ProjectVersion::new("1.0.0".to_string()),
        created_at: Timestamp::now(),
        last_modified: Timestamp::now(),
        size_bytes: FileSize::new(1000),
        target_size_bytes: FileSize::new(500),
        dependencies_count: DependencyCount::new(5),
        estimated_build_time_seconds: TimingDuration::new(30),
        project_type: ProjectType::Package,
    }
}

fn create_test_watcher(name: &str, path: ProjectPath) -> WatcherConfig {
    WatcherConfig {
        name: WatcherName::new(name.to_string()),
        path,
        created_at: Timestamp::now(),
    }
}

#[test]
fn test_format_build_time() {
    assert_eq!(format_build_time(0), "Unknown");
    assert_eq!(format_build_time(30), "30s");
    assert_eq!(format_build_time(60), "1m");
    assert_eq!(format_build_time(90), "1m30s");
    assert_eq!(format_build_time(3600), "1h");
    assert_eq!(format_build_time(3660), "1h1m");
}

#[test]
fn test_create_test_project_helper() {
    let project = create_test_project("test", path(&["/", "test"]));

    assert_eq!(project.name.to_string(), "test");
    assert_eq!(project.path, path(&["/", "test"]));
    assert_eq!(project.project_type, ProjectType::Package);
}

#[test]
fn test_create_test_watcher_helper() {
    let watcher = create_test_watcher("test-watcher", path(&["/", "test"]));

    assert_eq!(watcher.name.to_string(), "test-watcher");
    assert_eq!(watcher.path, path(&["/", "test"]));
}

#[test]
fn test_project_id_operations() {
    let id1 = ProjectId::new(1);
    let id2 = ProjectId::new(2);
    let id3 = id1.next();

    assert_eq!(id1.get(), 1);
    assert_eq!(id2.get(), 2);
    assert_eq!(id3.get(), 2);
    assert_ne!(id1, id2);
}

#[test]
fn test_timing_duration_operations() {
    let duration1 = TimingDuration::new(60);
    let duration2 = TimingDuration::new(0);

    assert_eq!(duration1.seconds(), 60);
    assert_eq!(duration2.seconds(), 0);
}

#[test]
fn test_dependency_count() {
    let count = DependencyCount::new(42);
    let _count = count;
}

#[test]
fn test_watcher_name_operations() {
    let name = WatcherName::new("test-watcher".to_string());

    assert_eq!(name.as_str(), "test-watcher");
    assert_eq!(name.to_string(), "test-watcher");
}

#[test]
fn test_file_size_operations() {
    let size1 = FileSize::new(1000);
    let size2 = FileSize::new(2000);

    assert_eq!(size1.bytes(), 1000);
    assert_eq!(size2.bytes(), 2000);
}

#[test]
fn test_handle_refresh_timing() {
    cargo_projects::commands::handle_refresh_timing();
}

#[test]
fn test_list_projects_empty_registry() {
    let registry = ProjectRegistry::new();
    let watchers = WatcherRegistry::new();
    let result = handle_list_projects(&registry, &watchers, None);

    assert_eq!(result.total_count, 0);
    assert_eq!(result.projects.len(), result.total_count);
}

#[test]
fn test_list_projects_with_nonexistent_watcher() {
    let mut registry = ProjectRegistry::new();
    registry.add_project(create_test_project("test", path(&["/", "test"])), &vec![]);
    let watchers = WatcherRegistry::new();
    let watcher_name = WatcherName::new("nonexistent-watcher".to_string());
    let result = handle_list_projects(&registry, &watchers, Some(&watcher_name));

    assert_eq!(result.projects.len(), result.total_count);
    assert_eq!(result.total_count, 0);
}

#[test]
fn test_handle_update_projects() {
    let mut registry = ProjectRegistry::new();
    registry.add_project(create_test_project("test", path(&["/", "test"])), &vec![]);
    let measured = vec![Measurement {
        path: path(&["/", "test"]),
        size: FileSize::new(1000),
        target_size: FileSize::new(500),
        build_time: TimingDuration::new(30),
        descendants: vec![path(&["/", "test", "src"])],
    }];
    let result = handle_update_projects(&mut registry, measured, Timestamp::now());

    assert_eq!(result.total_updated, 0);
    assert_eq!(result.updated_projects.len(), result.total_updated);
}
