use cargo_projects::types::{
    batch_is_consistent, paths_lie_below, DependencyCount, DiscoveredProject, FileSize, IndexEntry, ProjectId, ProjectName, ProjectPath,
    ProjectRegistry, ProjectType, ProjectVersion, ProjectsError, RegistryParts, ResolvedPath,
    RustProject, Timestamp, TimingDuration, WatcherConfig, WatcherName, WatcherParts,
    WatcherRegistry,
};

fn path(components: &[&str]) -> ProjectPath {
    ProjectPath::from_components(components.iter().map(|c| c.to_string()).collect())
}

fn at(secs: i64) -> Timestamp {
    Timestamp { secs, nanos: 0 }
}

fn project(name: &str, path: ProjectPath) -> RustProject {
    RustProject {
        id: ProjectId::new(0),
        name: ProjectName::new(name.to_string()),
        path,
        version: ProjectVersion::new("1.0.0".to_string()),
        created_at: at(100),
        last_modified: at(200),
        size_bytes: FileSize::new(1000),
        target_size_bytes: FileSize::new(500),
        dependencies_count: DependencyCount::new(5),
        estimated_build_time_seconds: TimingDuration::new(30),
        project_type: ProjectType::Package,
    }
}

fn ids(registry: &ProjectRegistry) -> Vec<u32> {
    registry.find_all().iter().map(|p| p.id.get()).collect()
}

#[test]
fn new_registry_is_empty_and_starts_at_identity_one() {
    let registry = ProjectRegistry::new_at(at(7));
    assert_eq!(registry.len(), 0);
    assert_eq!(registry.next_id().get(), 1);
    assert_eq!(registry.last_updated(), at(7));
    assert!(registry.path_index().is_empty());
    assert!(registry.find_all().is_empty());
    let stamped = ProjectRegistry::new();
    assert!(stamped.last_updated().secs > 1_500_000_000);
}

#[test]
fn add_assigns_sequential_identities() {
    let mut registry = ProjectRegistry::new_at(at(0));
    registry.add_project_at(project("a", path(&["/", "a"])), &vec![], at(1));
    registry.add_project_at(project("b", path(&["/", "b"])), &vec![], at(2));
    registry.add_project_at(project("c", path(&["/", "c"])), &vec![], at(3));
    assert_eq!(ids(&registry), vec![1, 2, 3]);
    assert_eq!(registry.next_id().get(), 4);
    assert_eq!(registry.last_updated(), at(3));
    assert_eq!(registry.len(), 3);
}

#[test]
fn identities_are_distinct_and_below_the_next_one() {
    let mut registry = ProjectRegistry::new_at(at(0));
    for name in ["a", "b", "c", "d", "e"] {
        registry.add_project_at(project(name, path(&["/", "work", name])), &vec![], at(1));
    }
    registry.add_project_at(project("b2", path(&["/", "work", "b"])), &vec![], at(2));
    assert!(registry.remove(ProjectId::new(3)));
    registry.add_project_at(project("f", path(&["/", "work", "f"])), &vec![], at(3));
    let all = ids(&registry);
    for (i, a) in all.iter().enumerate() {
        assert!(*a < registry.next_id().get());
        for b in all.iter().skip(i + 1) {
            assert_ne!(a, b);
        }
    }
    assert_eq!(all.len(), 5);
    assert!(!all.contains(&3));
    assert_eq!(registry.next_id().get(), 7);
}

#[test]
fn storing_a_registered_path_again_keeps_its_identity() {
    let mut registry = ProjectRegistry::new_at(at(0));
    registry.add_project_at(project("a", path(&["/", "a"])), &vec![], at(1));
    registry.add_project_at(project("b", path(&["/", "b"])), &vec![], at(1));
    let mut changed = project("a-renamed", path(&["/", "a"]));
    changed.id = ProjectId::new(77);
    changed.size_bytes = FileSize::new(4242);
    registry.add_project_at(changed, &vec![], at(5));
    assert_eq!(registry.len(), 2);
    assert_eq!(registry.next_id().get(), 3);
    let stored = registry.get(&path(&["/", "a"])).unwrap();
    assert_eq!(stored.id.get(), 1);
    assert_eq!(stored.name.as_str(), "a-renamed");
    assert_eq!(stored.size_bytes.bytes(), 4242);
}

#[test]
fn index_covers_the_project_and_everything_below_it() {
    let mut registry = ProjectRegistry::new_at(at(0));
    let root = path(&["/", "work", "demo"]);
    let below = vec![
        path(&["/", "work", "demo", "Cargo.toml"]),
        path(&["/", "work", "demo", "src"]),
        path(&["/", "work", "demo", "src", "main.rs"]),
    ];
    registry.add_project_at(project("demo", root.clone()), &below, at(1));
    assert_eq!(registry.path_index().len(), 4);
    for indexed in below.iter().chain(std::iter::once(&root)) {
        let found = registry.find_by_path(indexed).unwrap();
        assert_eq!(found.path, root);
        assert_eq!(found.id.get(), 1);
    }
    assert!(registry.find_by_path(&path(&["/", "work"])).is_none());
    assert!(registry.find_by_path(&path(&["/", "work", "demo", "README.md"])).is_none());
}

#[test]
fn storing_again_rebuilds_the_project_part_of_the_index() {
    let mut registry = ProjectRegistry::new_at(at(0));
    let root = path(&["/", "p"]);
    let other = path(&["/", "q"]);
    registry.add_project_at(
        project("p", root.clone()),
        &vec![path(&["/", "p", "old.rs"]), path(&["/", "p", "kept.rs"])],
        at(1),
    );
    registry.add_project_at(project("q", other.clone()), &vec![path(&["/", "q", "x.rs"])], at(2));
    registry.add_project_at(
        project("p", root.clone()),
        &vec![path(&["/", "p", "kept.rs"]), path(&["/", "p", "new.rs"])],
        at(3),
    );
    assert!(registry.find_by_path(&path(&["/", "p", "old.rs"])).is_none());
    assert_eq!(registry.find_by_path(&path(&["/", "p", "kept.rs"])).unwrap().path, root);
    assert_eq!(registry.find_by_path(&path(&["/", "p", "new.rs"])).unwrap().path, root);
    assert_eq!(registry.find_by_path(&path(&["/", "q", "x.rs"])).unwrap().path, other);
    assert_eq!(registry.path_index().len(), 5);
}

#[test]
fn an_outer_project_takes_over_the_paths_it_lists() {
    let mut registry = ProjectRegistry::new_at(at(0));
    let inner = path(&["/", "ws", "member"]);
    let outer = path(&["/", "ws"]);
    registry.add_project_at(
        project("member", inner.clone()),
        &vec![path(&["/", "ws", "member", "lib.rs"])],
        at(1),
    );
    registry.add_project_at(
        project("ws", outer.clone()),
        &vec![inner.clone(), path(&["/", "ws", "member", "lib.rs"])],
        at(2),
    );
    assert_eq!(registry.find_by_path(&inner).unwrap().path, outer);
    assert_eq!(registry.find_by_path(&path(&["/", "ws", "member", "lib.rs"])).unwrap().path, outer);
    assert!(registry.contains_path(&inner));
}

#[test]
fn containing_project_of_a_path_three_levels_down() {
    let mut registry = ProjectRegistry::new_at(at(0));
    let root = path(&["/", "home", "me", "demo"]);
    registry.add_project_at(
        project("demo", root.clone()),
        &vec![path(&["/", "home", "me", "demo", "src"])],
        at(1),
    );
    let changed = path(&["/", "home", "me", "demo", "src", "bin", "tool", "main.rs"]);
    let owner = registry.find_containing_project(&changed).unwrap();
    assert_eq!(owner.path, root);
    assert_eq!(owner.name.as_str(), "demo");
    let three_down = path(&["/", "home", "me", "demo", "a", "b", "c"]);
    assert_eq!(registry.find_containing_project(&three_down).unwrap().path, root);
    assert_eq!(registry.find_containing_project(&root).unwrap().path, root);
}

#[test]
fn path_outside_every_project_has_no_containing_project() {
    let mut registry = ProjectRegistry::new_at(at(0));
    registry.add_project_at(project("demo", path(&["/", "home", "me", "demo"])), &vec![], at(1));
    assert!(registry.find_containing_project(&path(&["/", "home", "me", "other", "x"])).is_none());
    assert!(registry.find_containing_project(&path(&["/", "home", "me"])).is_none());
    assert!(registry.find_containing_project(&path(&["/"])).is_none());
    assert!(registry.find_containing_project(&ProjectPath::new()).is_none());
    assert!(registry.find_containing_project(&path(&["/", "home", "me", "demolition"])).is_none());
}

#[test]
fn nearest_indexed_ancestor_decides_the_owner() {
    let mut registry = ProjectRegistry::new_at(at(0));
    let outer = path(&["/", "ws"]);
    let inner = path(&["/", "ws", "member"]);
    registry.add_project_at(project("ws", outer.clone()), &vec![], at(1));
    registry.add_project_at(project("member", inner.clone()), &vec![], at(2));
    assert_eq!(
        registry.find_containing_project(&path(&["/", "ws", "member", "src", "a.rs"])).unwrap().path,
        inner
    );
    assert_eq!(
        registry.find_containing_project(&path(&["/", "ws", "docs", "a.md"])).unwrap().path,
        outer
    );
}

#[test]
fn removed_project_leaves_its_index_entries_without_owner() {
    let mut registry = ProjectRegistry::new_at(at(0));
    let root = path(&["/", "p"]);
    registry.add_project_at(project("p", root.clone()), &vec![path(&["/", "p", "a"])], at(1));
    assert!(registry.remove(ProjectId::new(1)));
    assert!(!registry.remove(ProjectId::new(1)));
    assert_eq!(registry.len(), 0);
    assert_eq!(registry.path_index().len(), 2);
    assert!(registry.find_by_path(&path(&["/", "p", "a"])).is_none());
    assert!(registry.find_containing_project(&path(&["/", "p", "a", "b"])).is_none());
    assert_eq!(registry.next_id().get(), 2);
    assert_eq!(registry.last_updated(), at(1));
}

#[test]
fn remove_takes_out_only_the_project_with_the_identity() {
    let mut registry = ProjectRegistry::new_at(at(0));
    registry.add_project_at(project("a", path(&["/", "a"])), &vec![], at(1));
    registry.add_project_at(project("b", path(&["/", "b"])), &vec![], at(1));
    registry.add_project_at(project("c", path(&["/", "c"])), &vec![], at(1));
    assert!(!registry.remove(ProjectId::new(9)));
    assert_eq!(registry.len(), 3);
    assert!(registry.remove(ProjectId::new(2)));
    assert_eq!(ids(&registry), vec![1, 3]);
    assert!(registry.contains_path(&path(&["/", "a"])));
    assert!(!registry.contains_path(&path(&["/", "b"])));
    assert!(registry.find_by_id(ProjectId::new(2)).is_none());
    assert_eq!(registry.find_by_id(ProjectId::new(3)).unwrap().name.as_str(), "c");
}

#[test]
fn remove_all_projects_keeps_index_and_next_identity() {
    let mut registry = ProjectRegistry::new_at(at(0));
    registry.add_project_at(project("a", path(&["/", "a"])), &vec![path(&["/", "a", "x"])], at(1));
    registry.add_project_at(project("b", path(&["/", "b"])), &vec![], at(1));
    registry.remove_all_projects();
    assert_eq!(registry.len(), 0);
    assert_eq!(registry.next_id().get(), 3);
    assert_eq!(registry.path_index().len(), 3);
    registry.add_project_at(project("c", path(&["/", "c"])), &vec![], at(2));
    assert_eq!(ids(&registry), vec![3]);
}

#[test]
fn batch_is_stored_in_its_order() {
    let mut registry = ProjectRegistry::new_at(at(0));
    let batch = vec![
        DiscoveredProject {
            project: project("x", path(&["/", "x"])),
            descendants: vec![path(&["/", "x", "src"])],
        },
        DiscoveredProject { project: project("y", path(&["/", "y"])), descendants: vec![] },
    ];
    assert!(registry.has_room_for(batch.len()));
    registry.add_projects_at(batch, at(9));
    assert_eq!(registry.get(&path(&["/", "x"])).unwrap().id.get(), 1);
    assert_eq!(registry.get(&path(&["/", "y"])).unwrap().id.get(), 2);
    assert_eq!(registry.last_updated(), at(9));
    registry.add_projects_at(vec![], at(10));
    assert_eq!(registry.last_updated(), at(9));
    registry.add_projects(vec![DiscoveredProject {
        project: project("z", path(&["/", "z"])),
        descendants: vec![],
    }]);
    assert_eq!(registry.get(&path(&["/", "z"])).unwrap().id.get(), 3);
}

#[test]
fn room_for_new_projects_ends_at_the_last_identity() {
    let full = ProjectRegistry::from_parts(vec![], vec![], at(0), ProjectId::new(u32::MAX)).unwrap();
    assert!(full.has_room_for(0));
    assert!(!full.has_room_for(1));
    assert!(!full.can_add_path(&path(&["/", "a"])));
    let nearly = ProjectRegistry::from_parts(vec![], vec![], at(0), ProjectId::new(u32::MAX - 1))
        .unwrap();
    assert!(nearly.has_room_for(1));
    assert!(!nearly.has_room_for(2));
    assert!(nearly.can_add_path(&path(&["/", "a"])));
    let mut held = project("a", path(&["/", "a"]));
    held.id = ProjectId::new(5);
    let with_a =
        ProjectRegistry::from_parts(vec![held], vec![], at(0), ProjectId::new(u32::MAX)).unwrap();
    assert!(with_a.can_add_path(&path(&["/", "a"])));
    assert!(!with_a.can_add_path(&path(&["/", "b"])));
}

#[test]
fn parts_are_taken_back_as_they_were_given() {
    let mut registry = ProjectRegistry::new_at(at(0));
    registry.add_project_at(project("a", path(&["/", "a"])), &vec![path(&["/", "a", "x"])], at(1));
    registry.add_project_at(project("b", path(&["/", "b"])), &vec![], at(2));
    let projects: Vec<RustProject> = registry.projects().clone();
    let index: Vec<IndexEntry> = registry.path_index().clone();
    let copy =
        ProjectRegistry::from_parts(projects, index, registry.last_updated(), registry.next_id())
            .unwrap();
    assert_eq!(copy.len(), 2);
    let index_len = registry.path_index().len();
    let again = ProjectRegistry::load_at(Some(registry.into_parts()), at(99)).unwrap();
    let registry = copy;
    assert_eq!(again.len(), 2);
    assert_eq!(again.next_id().get(), 3);
    assert_eq!(again.last_updated(), at(2));
    assert_eq!(ids(&again), vec![1, 2]);
    assert_eq!(again.path_index().len(), index_len);
    assert_eq!(registry.path_index().len(), index_len);
    assert_eq!(again.find_by_path(&path(&["/", "a", "x"])).unwrap().name.as_str(), "a");
    assert_eq!(again.get(&path(&["/", "b"])).unwrap().name.as_str(), "b");
}

fn is_parse_error(result: Result<ProjectRegistry, ProjectsError>, text: &str) -> bool {
    match result {
        Err(ProjectsError::ParseError { message }) => message == text,
        _ => false,
    }
}

#[test]
fn inconsistent_parts_are_refused() {
    let with_id = |name: &str, p: ProjectPath, id: u32| {
        let mut r = project(name, p);
        r.id = ProjectId::new(id);
        r
    };
    let twice_path = vec![with_id("a", path(&["/", "a"]), 1), with_id("b", path(&["/", "a"]), 2)];
    assert!(is_parse_error(
        ProjectRegistry::from_parts(twice_path, vec![], at(0), ProjectId::new(3)),
        "registry is not consistent"
    ));
    let twice_id = vec![with_id("a", path(&["/", "a"]), 1), with_id("b", path(&["/", "b"]), 1)];
    assert!(is_parse_error(
        ProjectRegistry::from_parts(twice_id, vec![], at(0), ProjectId::new(3)),
        "registry is not consistent"
    ));
    let high_id = vec![with_id("a", path(&["/", "a"]), 3)];
    assert!(is_parse_error(
        ProjectRegistry::from_parts(high_id, vec![], at(0), ProjectId::new(3)),
        "registry is not consistent"
    ));
    let twice_indexed = vec![
        IndexEntry { path: path(&["/", "a", "x"]), root: path(&["/", "a"]) },
        IndexEntry { path: path(&["/", "a", "x"]), root: path(&["/"]) },
    ];
    assert!(is_parse_error(
        ProjectRegistry::from_parts(vec![], twice_indexed, at(0), ProjectId::new(1)),
        "registry is not consistent"
    ));
    let fine = vec![with_id("a", path(&["/", "a"]), 2)];
    assert!(ProjectRegistry::from_parts(fine, vec![], at(0), ProjectId::new(3)).is_ok());
}

#[test]
fn projects_under_a_directory() {
    let mut registry = ProjectRegistry::new_at(at(0));
    registry.add_project_at(project("a", path(&["/", "work", "a"])), &vec![], at(1));
    registry.add_project_at(project("b", path(&["/", "play", "b"])), &vec![], at(1));
    registry.add_project_at(project("c", path(&["/", "work", "deep", "c"])), &vec![], at(1));
    registry.add_project_at(project("d", path(&["/", "workshop", "d"])), &vec![], at(1));
    let names: Vec<String> =
        registry.find_under(&path(&["/", "work"])).iter().map(|p| p.name.to_string()).collect();
    assert_eq!(names, vec!["a", "c"]);
    assert_eq!(registry.find_under(&path(&["/"])).len(), 4);
    assert!(registry.find_under(&path(&["/", "none"])).is_empty());
}

#[test]
fn projects_of_a_watcher() {
    let mut registry = ProjectRegistry::new_at(at(0));
    registry.add_project_at(project("a", path(&["/", "work", "a"])), &vec![], at(1));
    registry.add_project_at(project("b", path(&["/", "play", "b"])), &vec![], at(1));
    let mut watchers = WatcherRegistry::new_at(at(0));
    watchers.add_watcher_at(&WatcherName::new("work".to_string()), path(&["/", "work"]), at(1));
    let found = registry.find_by_watcher(&watchers, &WatcherName::new("work".to_string()));
    assert_eq!(found.len(), 1);
    assert_eq!(found[0].name.as_str(), "a");
    let none = registry.find_by_watcher(&watchers, &WatcherName::new("nonexistent-watcher".to_string()));
    assert!(none.is_empty());
}

#[test]
fn deduplicate_keeps_the_first_project_of_each_resolved_path() {
    let mut registry = ProjectRegistry::new_at(at(0));
    registry.add_project_at(project("a", path(&["/", "link", "a"])), &vec![], at(1));
    registry.add_project_at(project("b", path(&["/", "b"])), &vec![], at(1));
    registry.add_project_at(project("a2", path(&["/", "real", "a"])), &vec![], at(1));
    registry.add_project_at(project("c", path(&["/", "c"])), &vec![], at(1));
    assert!(registry.remove(ProjectId::new(2)));
    let pairs = vec![
        ResolvedPath { path: path(&["/", "link", "a"]), canonical: path(&["/", "real", "a"]) },
        ResolvedPath { path: path(&["/", "link", "a"]), canonical: path(&["/", "ignored"]) },
    ];
    registry.deduplicate_at(&pairs, at(8));
    let all = registry.find_all();
    assert_eq!(all.len(), 2);
    assert_eq!(all[0].name.as_str(), "a");
    assert_eq!(all[0].path, path(&["/", "real", "a"]));
    assert_eq!(all[0].id.get(), 1);
    assert_eq!(all[1].name.as_str(), "c");
    assert_eq!(all[1].id.get(), 2);
    assert_eq!(registry.next_id().get(), 3);
    assert_eq!(registry.last_updated(), at(8));
    registry.deduplicate(&vec![]);
    assert_eq!(registry.len(), 2);
}

#[test]
fn watcher_registry_stores_by_name() {
    let mut watchers = WatcherRegistry::new_at(at(0));
    let home = WatcherName::new("home".to_string());
    let work = WatcherName::new("work".to_string());
    watchers.add_watcher_at(&home, path(&["/", "home"]), at(1));
    watchers.add_watcher_at(&work, path(&["/", "work"]), at(2));
    watchers.add_watcher_at(&home, path(&["/", "home", "me"]), at(3));
    assert_eq!(watchers.find_all().len(), 2);
    assert_eq!(watchers.last_updated(), at(3));
    let found = watchers.find_by_name(&home).unwrap();
    assert_eq!(found.path, path(&["/", "home", "me"]));
    assert_eq!(found.created_at, at(3));
    assert!(watchers.contains_name(&work));
    assert!(watchers.remove(&work));
    assert!(!watchers.remove(&work));
    assert!(!watchers.contains_name(&work));
    assert!(watchers.find_by_name(&work).is_none());
    watchers.save(WatcherConfig {
        name: WatcherName::new("x".to_string()),
        path: path(&["/", "x"]),
        created_at: at(4),
    });
    assert_eq!(watchers.watchers().len(), 2);
    assert_eq!(watchers.last_updated(), at(3));
    watchers.remove_all_watchers();
    assert!(watchers.find_all().is_empty());
    let mut fresh = WatcherRegistry::new();
    fresh.add_watcher(&home, path(&["/", "home"]));
    assert_eq!(fresh.find_by_name(&home).unwrap().name.as_str(), "home");
}

#[test]
fn watcher_parts_with_a_name_twice_are_refused() {
    let w = |name: &str| WatcherConfig {
        name: WatcherName::new(name.to_string()),
        path: path(&["/", name]),
        created_at: at(1),
    };
    match WatcherRegistry::from_parts(vec![w("a"), w("b"), w("a")], at(0)) {
        Err(ProjectsError::ParseError { message }) => {
            assert_eq!(message, "watcher registry holds a name twice")
        }
        _ => panic!("a name twice must be refused"),
    }
    let fine = WatcherRegistry::from_parts(vec![w("a"), w("b")], at(5)).unwrap();
    assert_eq!(fine.watchers().len(), 2);
    assert_eq!(fine.last_updated(), at(5));
}

#[test]
fn paths_compare_by_their_components() {
    let p = path(&["/", "a", "b"]);
    assert!(p.same_as(&path(&["/", "a", "b"])));
    assert!(!p.same_as(&path(&["/", "a"])));
    assert!(!p.same_as(&path(&["/", "a", "c"])));
    assert!(p.starts_with(&path(&["/", "a"])));
    assert!(p.starts_with(&p));
    assert!(p.starts_with(&ProjectPath::new()));
    assert!(!p.starts_with(&path(&["/", "a", "b", "c"])));
    assert!(!path(&["/", "ab"]).starts_with(&path(&["/", "a"])));
    assert_eq!(p.parent().unwrap(), path(&["/", "a"]));
    assert!(ProjectPath::new().parent().is_none());
    assert_eq!(p.file_name().unwrap(), "b");
    assert!(ProjectPath::new().file_name().is_none());
    assert_eq!(p.join("c"), path(&["/", "a", "b", "c"]));
    assert_eq!(p.prefix(2), path(&["/", "a"]));
    assert!(path(&["/", "a"]).equals_prefix(&p, 2));
    assert!(!path(&["/", "a"]).equals_prefix(&p, 3));
    assert_eq!(p.len(), 3);
    assert_eq!(p.components().len(), 3);
    assert_eq!(p.clone(), p);
}

#[test]
fn registry_without_a_file_is_empty() {
    let fresh = ProjectRegistry::load_at(None, at(12)).unwrap();
    assert_eq!(fresh.len(), 0);
    assert_eq!(fresh.next_id().get(), 1);
    assert_eq!(fresh.last_updated(), at(12));
    assert!(fresh.path_index().is_empty());
    let now = ProjectRegistry::load(None).unwrap();
    assert_eq!(now.len(), 0);
    assert!(now.last_updated().secs > 1_500_000_000);

    let watchers = WatcherRegistry::load_at(None, at(13)).unwrap();
    assert!(watchers.watchers().is_empty());
    assert_eq!(watchers.last_updated(), at(13));
    assert!(WatcherRegistry::load(None).unwrap().find_all().is_empty());
}

#[test]
fn saved_registry_is_loaded_as_it_was_saved() {
    let mut a = project("a", path(&["/", "a"]));
    a.id = ProjectId::new(4);
    let parts = RegistryParts {
        projects: vec![a],
        path_index: vec![IndexEntry { path: path(&["/", "a", "x"]), root: path(&["/", "a"]) }],
        last_updated: at(21),
        next_id: ProjectId::new(9),
    };
    let loaded = ProjectRegistry::load(Some(parts)).unwrap();
    assert_eq!(ids(&loaded), vec![4]);
    assert_eq!(loaded.next_id().get(), 9);
    assert_eq!(loaded.last_updated(), at(21));
    assert_eq!(loaded.find_by_path(&path(&["/", "a", "x"])).unwrap().id.get(), 4);

    let mut b = project("b", path(&["/", "b"]));
    b.id = ProjectId::new(9);
    let corrupt = RegistryParts {
        projects: vec![b],
        path_index: vec![],
        last_updated: at(21),
        next_id: ProjectId::new(9),
    };
    assert!(is_parse_error(ProjectRegistry::load(Some(corrupt)), "registry is not consistent"));

    let mut watchers = WatcherRegistry::new_at(at(1));
    watchers.add_watcher_at(&WatcherName::new("w".to_string()), path(&["/", "w"]), at(2));
    let again = WatcherRegistry::load(Some(watchers.into_parts())).unwrap();
    assert_eq!(again.watchers().len(), 1);
    assert_eq!(again.last_updated(), at(2));
    let w = |name: &str| WatcherConfig {
        name: WatcherName::new(name.to_string()),
        path: path(&["/", name]),
        created_at: at(1),
    };
    let twice = WatcherParts { watchers: vec![w("a"), w("a")], last_updated: at(3) };
    assert!(WatcherRegistry::load_at(Some(twice), at(4)).is_err());
}

#[test]
fn paths_below_a_project_are_told_from_others() {
    let root = path(&["/", "w", "demo"]);
    assert!(paths_lie_below(&root, &vec![]));
    assert!(paths_lie_below(&root, &vec![root.clone(), path(&["/", "w", "demo", "src", "a.rs"])]));
    assert!(!paths_lie_below(&root, &vec![path(&["/", "w", "demo", "a"]), path(&["/", "w"])]));
    assert!(!paths_lie_below(&root, &vec![path(&["/", "w", "demolition"])]));
    let inside = DiscoveredProject {
        project: project("demo", root.clone()),
        descendants: vec![path(&["/", "w", "demo", "Cargo.toml"])],
    };
    let outside = DiscoveredProject {
        project: project("demo", root.clone()),
        descendants: vec![path(&["/", "elsewhere"])],
    };
    assert!(inside.lies_below());
    assert!(!outside.lies_below());
    assert!(batch_is_consistent(&vec![]));
    assert!(!batch_is_consistent(&vec![inside, outside]));
}

#[test]
fn index_entry_outside_its_root_is_refused() {
    let stray = vec![IndexEntry { path: path(&["/", "other", "x"]), root: path(&["/", "a"]) }];
    assert!(is_parse_error(
        ProjectRegistry::from_parts(vec![], stray, at(0), ProjectId::new(1)),
        "registry is not consistent"
    ));
    let own = vec![IndexEntry { path: path(&["/", "a"]), root: path(&["/", "a"]) }];
    assert!(ProjectRegistry::from_parts(vec![], own, at(0), ProjectId::new(1)).is_ok());
}

#[test]
fn storing_is_refused_where_it_cannot_be_done() {
    let mut registry = ProjectRegistry::new_at(at(0));
    let root = path(&["/", "w", "demo"]);
    let stray = vec![path(&["/", "w", "other", "x"])];
    assert!(!registry.try_add_project_at(project("demo", root.clone()), &stray, at(5)));
    assert_eq!(registry.len(), 0);
    assert!(registry.path_index().is_empty());
    assert_eq!(registry.last_updated(), at(0));
    let below = vec![path(&["/", "w", "demo", "src"])];
    assert!(registry.try_add_project_at(project("demo", root.clone()), &below, at(6)));
    assert_eq!(registry.get(&root).unwrap().id.get(), 1);
    assert_eq!(registry.find_by_path(&below[0]).unwrap().path, root);
    assert_eq!(registry.last_updated(), at(6));

    let mut full =
        ProjectRegistry::from_parts(vec![], vec![], at(0), ProjectId::new(u32::MAX)).unwrap();
    assert!(!full.try_add_project_at(project("demo", root.clone()), &vec![], at(7)));
    assert_eq!(full.len(), 0);
    assert_eq!(full.next_id().get(), u32::MAX);
}
