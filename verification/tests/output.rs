use cargo_projects::commands::{clean_outcome, project_to_clean, UpdateResult};
use cargo_projects::output::{
    error_line, format_build_time, format_check_time, format_clean_result,
    format_clean_watchers_result, format_refresh_result, format_scan_result,
    format_update_result, result_line, ShownProject,
};
use cargo_projects::text::{concat_str, decimal_string, str_eq};
use cargo_projects::types::{
    DependencyCount, FileSize, ProjectId, ProjectName, ProjectPath, ProjectRegistry, ProjectType,
    ProjectVersion, ProjectsError, RustProject, Timestamp, TimingDuration, WatcherName,
};

#[test]
fn build_times_at_the_edges() {
    assert_eq!(format_build_time(1), "1s");
    assert_eq!(format_build_time(59), "59s");
    assert_eq!(format_build_time(61), "1m1s");
    assert_eq!(format_build_time(3599), "59m59s");
    assert_eq!(format_build_time(3601), "1h");
    assert_eq!(format_build_time(7325), "2h2m");
    assert_eq!(format_build_time(u32::MAX), "1193046h28m");
    assert_eq!(format_check_time(TimingDuration::new(0)), "Unknown");
    assert_eq!(format_check_time(TimingDuration::new(90)), "1m30s");
}

#[test]
fn update_report_lists_the_names() {
    assert_eq!(format_update_result(&UpdateResult::from(vec![])), "All projects are up to date.");
    assert_eq!(
        format_update_result(&UpdateResult::from(vec!["one".to_string()])),
        "Updated 1 projects:\n  \u{2022} one"
    );
    assert_eq!(
        format_update_result(&UpdateResult::from(vec![
            "one".to_string(),
            "two".to_string(),
            "three".to_string()
        ])),
        "Updated 3 projects:\n  \u{2022} one\n  \u{2022} two\n  \u{2022} three"
    );
    let odd = UpdateResult { updated_projects: vec!["x".to_string()], total_updated: 0 };
    assert_eq!(format_update_result(&odd), "All projects are up to date.");
    let more = UpdateResult { updated_projects: vec![], total_updated: 12 };
    assert_eq!(format_update_result(&more), "Updated 12 projects:\n");
}

#[test]
fn fixed_reports() {
    assert_eq!(format_clean_result("demo"), "Cleaned project: demo");
    assert_eq!(format_clean_watchers_result(), "All watchers cleared");
    assert_eq!(
        format_refresh_result(),
        "Timing cache cleared. Run 'update' to refresh timing data."
    );
}

#[test]
fn numbers_in_decimal() {
    assert_eq!(decimal_string(0), "0");
    assert_eq!(decimal_string(7), "7");
    assert_eq!(decimal_string(10), "10");
    assert_eq!(decimal_string(1203), "1203");
    assert_eq!(decimal_string(u64::MAX), "18446744073709551615");
    assert_eq!(ProjectId::new(999999999).to_string(), "999999999");
    assert_eq!(concat_str("ab", "cd"), "abcd");
    assert!(str_eq("target", "target"));
    assert!(!str_eq("target", "targets"));
    assert!(!str_eq("target", "tarGet"));
    assert!(str_eq("", ""));
    assert!(str_eq("\u{4e16}\u{754c}", "\u{4e16}\u{754c}"));
    assert!(!str_eq("\u{4e16}\u{754c}", "\u{4e16}\u{754d}"));
}

#[test]
fn errors_say_what_went_wrong() {
    let s = |t: &str| t.to_string();
    assert_eq!(ProjectsError::Io { message: s("x") }.to_string(), "I/O error: x");
    assert_eq!(ProjectsError::Serialization { message: s("x") }.to_string(), "Serialization error: x");
    assert_eq!(ProjectsError::RonSpanned { message: s("x") }.to_string(), "RON parsing error: x");
    assert_eq!(ProjectsError::CargoMetadata { message: s("x") }.to_string(), "Cargo metadata error: x");
    assert_eq!(ProjectsError::FileWatching { message: s("x") }.to_string(), "File watching error: x");
    assert_eq!(
        ProjectsError::ProjectNotFound { id: ProjectId::new(42) }.to_string(),
        "Project not found with ID: 42"
    );
    assert_eq!(
        ProjectsError::WatcherNotFound { name: WatcherName::new(s("w")) }.to_string(),
        "Watcher not found: w"
    );
    assert_eq!(
        ProjectsError::RegistryNotFound { path: s("/r") }.to_string(),
        "Registry file not found at: /r"
    );
    assert_eq!(
        ProjectsError::InvalidProjectName { name: s("n") }.to_string(),
        "Invalid project name: n"
    );
    assert_eq!(ProjectsError::InvalidFileSize { size: s("1x") }.to_string(), "Invalid file size: 1x");
    assert_eq!(ProjectsError::ConfigDirectoryNotFound.to_string(), "Config directory not found");
    assert_eq!(
        ProjectsError::CargoCommandFailed { stderr: s("boom") }.to_string(),
        "Cargo command failed: boom"
    );
    assert_eq!(
        ProjectsError::BuildTimeParsingError { message: s("m") }.to_string(),
        "Build time parsing error: m"
    );
    assert_eq!(ProjectsError::ParseError { message: s("m") }.to_string(), "Parse error: m");
    assert_eq!(ProjectsError::CacheNotFound { message: s("m") }.to_string(), "Cache not found: m");
    assert_eq!(ProjectsError::BuildError { message: s("m") }.to_string(), "Build error: m");
    assert_eq!(ProjectsError::Generic { message: s("m") }.to_string(), "Generic error: m");
    assert_eq!(ProjectsError::from_message("hello").to_string(), "Generic error: hello");
}

#[test]
fn cleaning_needs_a_registered_project() {
    let mut registry = ProjectRegistry::new_at(Timestamp { secs: 0, nanos: 0 });
    let project = RustProject {
        id: ProjectId::new(0),
        name: ProjectName::new("demo".to_string()),
        path: ProjectPath::from_components(vec!["/".to_string(), "demo".to_string()]),
        version: ProjectVersion::new("1.0.0".to_string()),
        created_at: Timestamp { secs: 1, nanos: 0 },
        last_modified: Timestamp { secs: 1, nanos: 0 },
        size_bytes: FileSize::new(1),
        target_size_bytes: FileSize::new(1),
        dependencies_count: DependencyCount::new(0),
        estimated_build_time_seconds: TimingDuration::new(0),
        project_type: ProjectType::Package,
    };
    registry.add_project_at(project, &vec![], Timestamp { secs: 2, nanos: 0 });
    assert_eq!(project_to_clean(&registry, ProjectId::new(1)).unwrap().name.as_str(), "demo");
    let missing = project_to_clean(&registry, ProjectId::new(999999999)).unwrap_err();
    let text = missing.to_string();
    assert!(text.contains("999999999") || text.contains("not found"));
    assert_eq!(text, "Project not found with ID: 999999999");
    let name = ProjectName::new("demo".to_string());
    assert_eq!(clean_outcome(&name, true, "ignored").unwrap(), "demo");
    match clean_outcome(&name, false, "error: could not clean") {
        Err(ProjectsError::CargoCommandFailed { stderr }) => {
            assert_eq!(stderr, "error: could not clean")
        }
        other => panic!("unexpected {:?}", other),
    }
}

#[test]
fn scan_report_lists_names_and_paths() {
    let shown = |name: &str, path: &str| ShownProject {
        name: name.to_string(),
        path: path.to_string(),
    };
    assert_eq!(format_scan_result(0, &vec![]), "No new projects found.");
    assert_eq!(format_scan_result(0, &vec![shown("a", "/a")]), "No new projects found.");
    assert_eq!(
        format_scan_result(1, &vec![shown("demo", "/tmp/t/demo")]),
        "Found and added 1 new projects:\n  \u{2022} demo (/tmp/t/demo)"
    );
    assert_eq!(
        format_scan_result(2, &vec![shown("a", "/w/a"), shown("b", "/w/b")]),
        "Found and added 2 new projects:\n  \u{2022} a (/w/a)\n  \u{2022} b (/w/b)"
    );
    assert_eq!(format_scan_result(3, &vec![]), "Found and added 3 new projects:\n");
}

#[test]
fn lines_for_results_and_errors() {
    assert_eq!(result_line("done"), "done\n");
    assert_eq!(result_line(""), "\n");
    assert_eq!(error_line("Project not found with ID: 7"), "Error: Project not found with ID: 7\n");
    assert_eq!(error_line(""), "Error: \n");
}
