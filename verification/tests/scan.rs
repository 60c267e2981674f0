use cargo_projects::commands::scan::{
    contains_path, process_projects, project_directory, record_scan, FALLBACK_WALKER_THREADS,
    MAX_SCAN_DEPTH,
};
use cargo_projects::commands::{
    collect_project_paths, create_project_at, is_skipped_directory, partition_candidates,
    should_visit, DirectoryFacts, ManifestInfo, PackageInfo, ScanResult, ScanSettings, WalkEntry,
};
use cargo_projects::types::{
    DiscoveredProject, FileSize, ProjectPath, ProjectRegistry, ProjectType, Timestamp,
    TimingDuration,
};

fn path(components: &[&str]) -> ProjectPath {
    ProjectPath::from_components(components.iter().map(|c| c.to_string()).collect())
}

fn at(secs: i64) -> Timestamp {
    Timestamp { secs, nanos: 0 }
}

fn file(components: &[&str]) -> WalkEntry {
    WalkEntry { path: path(components), is_file: true }
}

fn dir(components: &[&str]) -> WalkEntry {
    WalkEntry { path: path(components), is_file: false }
}

fn facts(dir_name: &str, estimate: u32) -> DirectoryFacts {
    DirectoryFacts {
        dir_name: Some(dir_name.to_string()),
        manifest_name: None,
        manifest_modified: Ok(at(50)),
        size_bytes: FileSize::new(2048),
        target_size_bytes: FileSize::new(1024),
        build_time: TimingDuration::new(estimate),
    }
}

fn package_manifest(name: &str) -> Option<ManifestInfo> {
    Some(ManifestInfo {
        root_package: Some(PackageInfo {
            name: name.to_string(),
            version: "0.1.0".to_string(),
            dependency_count: 0,
        }),
        workspace_member_count: 0,
        workspace_name: None,
    })
}

/// One scan over the entries of a walk: collect, split, build, store.
fn scan(registry: &mut ProjectRegistry, entries: &Vec<WalkEntry>, name: &str) -> ScanResult {
    let candidates = collect_project_paths(entries);
    let plan = partition_candidates(registry, candidates);
    let outcomes: Vec<Option<DiscoveredProject>> = plan
        .new_paths
        .iter()
        .map(|p| {
            create_project_at(p, &package_manifest(name), &facts(name, 0), at(60)).ok().map(
                |project| DiscoveredProject { project, descendants: vec![p.join("Cargo.toml")] },
            )
        })
        .collect();
    let built = process_projects(outcomes);
    assert!(registry.has_room_for(built.len()));
    record_scan(registry, built)
}

#[test]
fn scan_of_an_empty_directory_adds_nothing() {
    let mut registry = ProjectRegistry::new_at(at(0));
    let entries = vec![dir(&["/", "tmp", "empty"])];
    let result = scan(&mut registry, &entries, "none");
    assert_eq!(result.added_count, 0);
    assert!(result.found_projects.is_empty());
    assert_eq!(registry.len(), 0);
    assert_eq!(registry.last_updated(), at(0));
}

#[test]
fn scan_finds_one_package_and_a_second_scan_adds_nothing() {
    let mut registry = ProjectRegistry::new_at(at(0));
    let entries = vec![
        dir(&["/", "tmp", "t"]),
        dir(&["/", "tmp", "t", "sub"]),
        file(&["/", "tmp", "t", "sub", "Cargo.toml"]),
        file(&["/", "tmp", "t", "sub", "main.rs"]),
    ];
    let first = scan(&mut registry, &entries, "demo");
    assert_eq!(first.added_count, 1);
    assert_eq!(first.found_projects.len(), 1);
    assert_eq!(first.found_projects[0].name.as_str(), "demo");
    assert_eq!(first.found_projects[0].path, path(&["/", "tmp", "t", "sub"]));
    assert_eq!(first.found_projects[0].estimated_build_time_seconds.seconds(), 0);
    assert_eq!(
        cargo_projects::output::format_check_time(
            first.found_projects[0].estimated_build_time_seconds
        ),
        "Unknown"
    );
    assert_eq!(registry.len(), 1);
    assert_eq!(registry.get(&path(&["/", "tmp", "t", "sub"])).unwrap().id.get(), 1);

    let second = scan(&mut registry, &entries, "demo");
    assert_eq!(second.added_count, 0);
    assert!(second.found_projects.is_empty());
    assert_eq!(registry.len(), 1);
    assert_eq!(registry.next_id().get(), 2);
}

#[test]
fn skipped_directories_are_the_fixed_list() {
    for name in [
        "node_modules",
        ".git",
        ".svn",
        "__pycache__",
        ".vscode",
        ".idea",
        ".venv",
        "build",
        "dist",
        "out",
        "target",
    ] {
        assert!(is_skipped_directory(name), "{}", name);
        assert!(!should_visit(name, true));
        assert!(should_visit(name, false));
    }
    for name in ["src", ".github", ".cargo", "targets", "Target", "", ".hidden", "output"] {
        assert!(!is_skipped_directory(name), "{}", name);
        assert!(should_visit(name, true));
    }
}

#[test]
fn scan_settings_follow_the_machine() {
    let eight = ScanSettings::for_parallelism(Some(4));
    assert_eq!(eight.threads, 8);
    assert_eq!(eight.max_depth, 10);
    assert_eq!(MAX_SCAN_DEPTH, 10);
    assert!(eight.git_ignore);
    assert!(!eight.git_global);
    assert!(!eight.git_exclude);
    assert!(!eight.skip_hidden);
    assert_eq!(ScanSettings::for_parallelism(None).threads, FALLBACK_WALKER_THREADS);
    assert_eq!(ScanSettings::for_parallelism(None).threads, 8);
    assert_eq!(ScanSettings::for_parallelism(Some(1)).threads, 2);
    assert_eq!(ScanSettings::for_parallelism(Some(usize::MAX)).threads, usize::MAX);
}

#[test]
fn only_files_called_cargo_toml_announce_a_project() {
    assert_eq!(project_directory(&file(&["/", "a", "Cargo.toml"])), Some(path(&["/", "a"])));
    assert_eq!(project_directory(&dir(&["/", "a", "Cargo.toml"])), None);
    assert_eq!(project_directory(&file(&["/", "a", "cargo.toml"])), None);
    assert_eq!(project_directory(&file(&["/", "a", "Cargo.lock"])), None);
    assert_eq!(project_directory(&file(&[])), None);
    assert_eq!(project_directory(&file(&["Cargo.toml"])), Some(ProjectPath::new()));
}

#[test]
fn project_directories_are_collected_once_in_order() {
    let entries = vec![
        file(&["/", "b", "Cargo.toml"]),
        file(&["/", "b", "src", "lib.rs"]),
        file(&["/", "a", "Cargo.toml"]),
        file(&["/", "b", "Cargo.toml"]),
        dir(&["/", "c", "Cargo.toml"]),
        file(&["/", "a", "x", "Cargo.toml"]),
    ];
    let found = collect_project_paths(&entries);
    assert_eq!(found, vec![path(&["/", "b"]), path(&["/", "a"]), path(&["/", "a", "x"])]);
    assert!(contains_path(&found, &path(&["/", "a"])));
    assert!(!contains_path(&found, &path(&["/", "c"])));
    assert!(collect_project_paths(&vec![]).is_empty());
}

#[test]
fn candidates_are_split_by_exact_path() {
    let mut registry = ProjectRegistry::new_at(at(0));
    let known = path(&["/", "w", "known"]);
    let outcome = create_project_at(&known, &package_manifest("known"), &facts("known", 3), at(1));
    registry.add_project_at(outcome.unwrap(), &vec![path(&["/", "w", "known", "inner"])], at(1));
    let plan = partition_candidates(
        &registry,
        vec![
            path(&["/", "w", "new1"]),
            known.clone(),
            path(&["/", "w", "known", "inner"]),
            path(&["/", "w", "new2"]),
        ],
    );
    assert_eq!(
        plan.new_paths,
        vec![path(&["/", "w", "new1"]), path(&["/", "w", "known", "inner"]), path(&["/", "w", "new2"])]
    );
    assert_eq!(plan.existing, vec![known]);
}

#[test]
fn projects_that_failed_to_build_are_left_out() {
    let good = |name: &str| {
        Some(DiscoveredProject {
            project: create_project_at(
                &path(&["/", name]),
                &package_manifest(name),
                &facts(name, 1),
                at(1),
            )
            .unwrap(),
            descendants: vec![],
        })
    };
    let built = process_projects(vec![None, good("a"), None, None, good("b")]);
    let names: Vec<String> = built.iter().map(|d| d.project.name.to_string()).collect();
    assert_eq!(names, vec!["a", "b"]);
    assert!(process_projects(vec![None, None]).is_empty());
}

#[test]
fn scan_result_counts_what_was_found() {
    let project =
        create_project_at(&path(&["/", "p"]), &package_manifest("p"), &facts("p", 1), at(1)).unwrap();
    let result = ScanResult::from(vec![project]);
    assert_eq!(result.added_count, 1);
    assert_eq!(result.found_projects[0].project_type, ProjectType::Package);
    assert_eq!(ScanResult::from(vec![]).added_count, 0);
}
