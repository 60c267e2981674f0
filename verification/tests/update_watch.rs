use cargo_projects::commands::size_calculator::SizedEntry;
use cargo_projects::commands::measurements_are_consistent;
use cargo_projects::commands::{
    calculate_directory_size, calculate_project_size, calculate_target_directory_size,
    calculate_target_size, check_watch_request, create_new_watcher_config, handle_list_projects,
    handle_update_projects, is_new_manifest, plan_event, project_not_found, sort_by_id,
    update_project_metrics, update_project_size_if_exists, update_project_size_values,
    watcher_name_or_default, ChangeKind, Measurement, WatchAction, WatchEvent,
};
use cargo_projects::services::config_service::config_file_path;
use cargo_projects::services::AppConfig;
use cargo_projects::types::{
    DependencyCount, FileSize, ProjectId, ProjectName, ProjectPath, ProjectRegistry, ProjectType,
    ProjectVersion, ProjectsError, RustProject, Timestamp, TimingDuration, WatcherName,
    WatcherRegistry,
};

fn path(components: &[&str]) -> ProjectPath {
    ProjectPath::from_components(components.iter().map(|c| c.to_string()).collect())
}

fn at(secs: i64) -> Timestamp {
    Timestamp { secs, nanos: 0 }
}

fn project(name: &str, path: ProjectPath) -> RustProject {
    RustProject {
        id: ProjectId::new(0),
        name: ProjectName::new(name.to_string()),
        path,
        version: ProjectVersion::new("1.0.0".to_string()),
        created_at: at(100),
        last_modified: at(200),
        size_bytes: FileSize::new(1000),
        target_size_bytes: FileSize::new(500),
        dependencies_count: DependencyCount::new(5),
        estimated_build_time_seconds: TimingDuration::new(30),
        project_type: ProjectType::Package,
    }
}

fn with_id(name: &str, id: u32) -> RustProject {
    let mut p = project(name, path(&["/", name]));
    p.id = ProjectId::new(id);
    p
}

fn file(len: u64) -> SizedEntry {
    SizedEntry { is_file: true, len: Some(len) }
}

fn event(components: &[&str], kind: ChangeKind) -> WatchEvent {
    WatchEvent { path: path(components), kind }
}

fn registry_with_demo() -> ProjectRegistry {
    let mut registry = ProjectRegistry::new_at(at(0));
    registry.add_project_at(
        project("demo", path(&["/", "w", "demo"])),
        &vec![path(&["/", "w", "demo", "src"]), path(&["/", "w", "demo", "crates"])],
        at(1),
    );
    registry
}

#[test]
fn sizes_of_files_are_added_up() {
    let entries = vec![
        file(10),
        SizedEntry { is_file: false, len: Some(4096) },
        file(5),
        SizedEntry { is_file: true, len: None },
        file(0),
        file(27),
    ];
    assert_eq!(calculate_project_size(&entries), 42);
    assert_eq!(calculate_directory_size(&entries), 42);
    assert_eq!(calculate_project_size(&vec![]), 0);
    assert_eq!(calculate_target_size(&Some(entries.clone())), 42);
    assert_eq!(calculate_target_directory_size(&Some(entries)), 42);
    assert_eq!(calculate_target_size(&None), 0);
    assert_eq!(calculate_target_directory_size(&None), 0);
    assert_eq!(calculate_target_size(&Some(vec![])), 0);
}

#[test]
fn size_wraps_around_at_64_bits() {
    assert_eq!(calculate_project_size(&vec![file(u64::MAX), file(1)]), 0);
    assert_eq!(calculate_project_size(&vec![file(u64::MAX), file(u64::MAX)]), u64::MAX - 1);
    assert_eq!(calculate_project_size(&vec![file(u64::MAX - 1), file(1)]), u64::MAX);
}

#[test]
fn new_metrics_replace_the_old_ones() {
    let p = project("demo", path(&["/", "demo"]));
    let (changed, updated, name) =
        update_project_metrics(p, FileSize::new(1000), FileSize::new(500), TimingDuration::new(30));
    assert!(!changed);
    assert_eq!(name, "demo");
    assert_eq!(updated.size_bytes.bytes(), 1000);

    let (changed, updated, _) = update_project_metrics(
        updated,
        FileSize::new(1001),
        FileSize::new(500),
        TimingDuration::new(30),
    );
    assert!(changed);
    assert_eq!(updated.size_bytes.bytes(), 1001);

    let (changed, updated, _) =
        update_project_metrics(updated, FileSize::new(1001), FileSize::new(7), TimingDuration::new(30));
    assert!(changed);
    assert_eq!(updated.target_size_bytes.bytes(), 7);

    let (changed, updated, _) =
        update_project_metrics(updated, FileSize::new(1001), FileSize::new(7), TimingDuration::new(0));
    assert!(!changed);
    assert_eq!(updated.estimated_build_time_seconds.seconds(), 30);

    let (changed, updated, _) =
        update_project_metrics(updated, FileSize::new(1001), FileSize::new(7), TimingDuration::new(31));
    assert!(changed);
    assert_eq!(updated.estimated_build_time_seconds.seconds(), 31);
    assert_eq!(updated.last_modified, at(200));
    assert_eq!(updated.name.as_str(), "demo");
}

#[test]
fn new_sizes_mark_the_project_as_modified() {
    let p = project("demo", path(&["/", "demo"]));
    let updated = update_project_size_values(p, FileSize::new(9), FileSize::new(8), at(777));
    assert_eq!(updated.size_bytes.bytes(), 9);
    assert_eq!(updated.target_size_bytes.bytes(), 8);
    assert_eq!(updated.last_modified, at(777));
    assert_eq!(updated.created_at, at(100));
    assert_eq!(updated.estimated_build_time_seconds.seconds(), 30);
}

#[test]
fn update_stores_only_what_changed() {
    let mut registry = ProjectRegistry::new_at(at(0));
    registry.add_project_at(project("a", path(&["/", "a"])), &vec![path(&["/", "a", "old"])], at(1));
    registry.add_project_at(project("b", path(&["/", "b"])), &vec![], at(1));
    registry.add_project_at(project("c", path(&["/", "c"])), &vec![], at(1));
    let m = |p: &[&str], size: u64, secs: u32, below: Vec<ProjectPath>| Measurement {
        path: path(p),
        size: FileSize::new(size),
        target_size: FileSize::new(500),
        build_time: TimingDuration::new(secs),
        descendants: below,
    };
    let result = handle_update_projects(
        &mut registry,
        vec![
            m(&["/", "a"], 1234, 0, vec![path(&["/", "a", "new"])]),
            m(&["/", "b"], 1000, 0, vec![path(&["/", "b", "ignored"])]),
            m(&["/", "gone"], 1, 1, vec![]),
            m(&["/", "c"], 1000, 45, vec![]),
        ],
        at(9),
    );
    assert_eq!(result.updated_projects, vec!["a", "c"]);
    assert_eq!(result.total_updated, 2);
    let a = registry.get(&path(&["/", "a"])).unwrap();
    assert_eq!(a.size_bytes.bytes(), 1234);
    assert_eq!(a.id.get(), 1);
    assert_eq!(a.estimated_build_time_seconds.seconds(), 30);
    assert_eq!(registry.get(&path(&["/", "c"])).unwrap().estimated_build_time_seconds.seconds(), 45);
    assert_eq!(registry.get(&path(&["/", "c"])).unwrap().id.get(), 3);
    assert!(registry.find_by_path(&path(&["/", "a", "new"])).is_some());
    assert!(registry.find_by_path(&path(&["/", "a", "old"])).is_none());
    assert!(registry.find_by_path(&path(&["/", "b", "ignored"])).is_none());
    assert_eq!(registry.len(), 3);
    assert_eq!(registry.next_id().get(), 4);
    assert_eq!(registry.last_updated(), at(9));

    let nothing = handle_update_projects(&mut registry, vec![m(&["/", "a"], 1234, 0, vec![])], at(10));
    assert_eq!(nothing.total_updated, 0);
    assert!(nothing.updated_projects.is_empty());
    assert_eq!(registry.last_updated(), at(9));
}

#[test]
fn projects_are_listed_by_identity() {
    let sorted = sort_by_id(vec![
        with_id("c", 3),
        with_id("a", 1),
        with_id("d", 3),
        with_id("b", 2),
        with_id("z", 0),
    ]);
    let names: Vec<String> = sorted.iter().map(|p| p.name.to_string()).collect();
    assert_eq!(names, vec!["z", "a", "b", "c", "d"]);
    assert!(sort_by_id(vec![]).is_empty());
}

#[test]
fn list_of_all_projects_or_of_a_watcher() {
    let mut registry = ProjectRegistry::new_at(at(0));
    registry.add_project_at(project("a", path(&["/", "work", "a"])), &vec![], at(1));
    registry.add_project_at(project("b", path(&["/", "play", "b"])), &vec![], at(1));
    registry.add_project_at(project("c", path(&["/", "work", "c"])), &vec![], at(1));
    registry.add_project_at(project("a2", path(&["/", "work", "a"])), &vec![], at(2));
    let mut watchers = WatcherRegistry::new_at(at(0));
    let work = WatcherName::new("work".to_string());
    watchers.add_watcher_at(&work, path(&["/", "work"]), at(1));

    let all = handle_list_projects(&registry, &watchers, None);
    assert_eq!(all.total_count, 3);
    assert_eq!(all.projects.len(), all.total_count);
    let ids: Vec<u32> = all.projects.iter().map(|p| p.id.get()).collect();
    assert_eq!(ids, vec![1, 2, 3]);

    let of_work = handle_list_projects(&registry, &watchers, Some(&work));
    let names: Vec<String> = of_work.projects.iter().map(|p| p.name.to_string()).collect();
    assert_eq!(names, vec!["a2", "c"]);
    assert_eq!(of_work.total_count, 2);

    let unknown = WatcherName::new("nonexistent-watcher".to_string());
    let none = handle_list_projects(&registry, &watchers, Some(&unknown));
    assert_eq!(none.projects.len(), none.total_count);
    assert_eq!(none.total_count, 0);

    let empty = handle_list_projects(&ProjectRegistry::new_at(at(0)), &watchers, None);
    assert_eq!(empty.total_count, 0);
    assert_eq!(empty.projects.len(), empty.total_count);
}

#[test]
fn new_manifest_in_an_indexed_directory_is_a_project_to_add() {
    let registry = registry_with_demo();
    let created = event(&["/", "w", "demo", "crates", "Cargo.toml"], ChangeKind::Create);
    assert!(is_new_manifest(&created));
    match plan_event(&registry, &created) {
        WatchAction::AddProject { path: p } => assert_eq!(p, path(&["/", "w", "demo", "crates"])),
        other => panic!("unexpected {:?}", other),
    }
    match plan_event(&registry, &event(&["/", "w", "demo", "Cargo.toml"], ChangeKind::Create)) {
        WatchAction::AddProject { path: p } => assert_eq!(p, path(&["/", "w", "demo"])),
        other => panic!("unexpected {:?}", other),
    }
}

#[test]
fn new_manifest_in_an_unknown_directory_finds_no_project() {
    let registry = registry_with_demo();
    for components in [
        vec!["/", "w", "fresh", "Cargo.toml"],
        vec!["/", "w", "demo", "not-indexed", "Cargo.toml"],
        vec!["Cargo.toml"],
    ] {
        match plan_event(&registry, &event(&components, ChangeKind::Create)) {
            WatchAction::ProjectNotFound => {}
            other => panic!("unexpected {:?}", other),
        }
    }
    assert_eq!(project_not_found().to_string(), "Generic error: Project not found");
}

#[test]
fn other_changes_refresh_the_owning_project() {
    let registry = registry_with_demo();
    for kind in [ChangeKind::Create, ChangeKind::Modify, ChangeKind::Remove] {
        match plan_event(&registry, &event(&["/", "w", "demo", "src", "a", "b.rs"], kind)) {
            WatchAction::RefreshProject { project } => {
                assert_eq!(project.path, path(&["/", "w", "demo"]));
                assert_eq!(project.id.get(), 1);
            }
            other => panic!("unexpected {:?}", other),
        }
    }
    for components in [vec!["/", "w", "demo", "Cargo.toml"], vec!["/", "w", "demo", "src", "Cargo.toml"]] {
        for kind in [ChangeKind::Modify, ChangeKind::Remove] {
            assert!(!is_new_manifest(&event(&components, kind)));
            match plan_event(&registry, &event(&components, kind)) {
                WatchAction::RefreshProject { project } => assert_eq!(project.name.as_str(), "demo"),
                other => panic!("unexpected {:?}", other),
            }
        }
    }
}

#[test]
fn changes_without_owner_and_other_kinds_are_ignored() {
    let registry = registry_with_demo();
    for (components, kind) in [
        (vec!["/", "w", "elsewhere", "x.rs"], ChangeKind::Modify),
        (vec!["/", "w"], ChangeKind::Remove),
        (vec!["/", "w", "demo", "src", "a.rs"], ChangeKind::Other),
        (vec!["/", "w", "demo", "Cargo.toml"], ChangeKind::Other),
        (vec![], ChangeKind::Create),
    ] {
        match plan_event(&registry, &event(&components, kind)) {
            WatchAction::Ignore => {}
            other => panic!("unexpected {:?}", other),
        }
    }
}

#[test]
fn refresh_stores_new_sizes_for_a_registered_project() {
    let mut registry = registry_with_demo();
    let held = registry.find_containing_project(&path(&["/", "w", "demo", "src", "x"])).unwrap();
    let stored = update_project_size_if_exists(
        &mut registry,
        held,
        FileSize::new(77),
        FileSize::new(66),
        &vec![path(&["/", "w", "demo", "src"]), path(&["/", "w", "demo", "src", "x"])],
        at(5),
    );
    assert!(stored);
    let now = registry.get(&path(&["/", "w", "demo"])).unwrap();
    assert_eq!(now.size_bytes.bytes(), 77);
    assert_eq!(now.target_size_bytes.bytes(), 66);
    assert_eq!(now.last_modified, at(5));
    assert_eq!(now.id.get(), 1);
    assert!(registry.find_by_path(&path(&["/", "w", "demo", "src", "x"])).is_some());
    assert!(registry.find_by_path(&path(&["/", "w", "demo", "crates"])).is_none());
    assert_eq!(registry.last_updated(), at(5));

    let stranger = project("stranger", path(&["/", "s"]));
    let stored = update_project_size_if_exists(
        &mut registry,
        stranger,
        FileSize::new(1),
        FileSize::new(1),
        &vec![],
        at(6),
    );
    assert!(!stored);
    assert_eq!(registry.len(), 1);
    assert_eq!(registry.last_updated(), at(5));
}

#[test]
fn watcher_is_named_after_its_directory_by_default() {
    let given = Some(WatcherName::new("mine".to_string()));
    assert_eq!(watcher_name_or_default(given, Some("dir")).as_str(), "mine");
    assert_eq!(watcher_name_or_default(None, Some("dir")).as_str(), "dir");
    assert_eq!(watcher_name_or_default(None, None).as_str(), "unnamed");
    let config =
        create_new_watcher_config(&WatcherName::new("w".to_string()), &path(&["/", "w"]), at(3));
    assert_eq!(config.name.as_str(), "w");
    assert_eq!(config.path, path(&["/", "w"]));
    assert_eq!(config.created_at, at(3));
}

#[test]
fn watching_the_whole_system_is_refused() {
    assert!(check_watch_request(false).is_ok());
    match check_watch_request(true) {
        Err(ProjectsError::Generic { message }) => assert_eq!(
            message,
            "System-wide monitoring not yet implemented. Use --project-path for now."
        ),
        other => panic!("unexpected {:?}", other),
    }
}

#[test]
fn configuration_lives_below_the_config_directory() {
    let home = Some(path(&["/", "home", "me", ".config"]));
    let config = AppConfig::default_in(&home);
    assert_eq!(
        config.registry_path,
        path(&["/", "home", "me", ".config", "cargo-projects", "registry.ron"])
    );
    assert_eq!(
        config.watcher_registry_path,
        path(&["/", "home", "me", ".config", "cargo-projects", "watchers.ron"])
    );
    assert_eq!(config.max_scan_depth, Some(10));
    assert_eq!(config.thread_count, None);
    assert!(config.cache_build_times);
    assert!(config.ignore_target_dirs);
    let (registry, watchers) = config.get_registry_paths();
    assert_eq!(registry, config.registry_path);
    assert_eq!(watchers, config.watcher_registry_path);

    let fallback = AppConfig::default_in(&None);
    assert_eq!(fallback.registry_path, path(&[".", "cargo-projects", "registry.ron"]));
    assert_eq!(fallback.watcher_registry_path, path(&[".", "cargo-projects", "watchers.ron"]));

    assert_eq!(
        config_file_path(&home).unwrap(),
        path(&["/", "home", "me", ".config", "cargo-projects", "config.ron"])
    );
    match config_file_path(&None) {
        Err(ProjectsError::ConfigDirectoryNotFound) => {}
        other => panic!("unexpected {:?}", other),
    }
}

#[test]
fn measurements_outside_their_project_are_told() {
    let m = |below: Vec<ProjectPath>| Measurement {
        path: path(&["/", "a"]),
        size: FileSize::new(1),
        target_size: FileSize::new(1),
        build_time: TimingDuration::new(0),
        descendants: below,
    };
    assert!(measurements_are_consistent(&vec![]));
    assert!(measurements_are_consistent(&vec![m(vec![]), m(vec![path(&["/", "a", "x"])])]));
    assert!(!measurements_are_consistent(&vec![m(vec![]), m(vec![path(&["/", "b", "x"])])]));
}
