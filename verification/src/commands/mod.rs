//! The rules behind the commands: what a scan collects and stores, how a
//! project record is built, what an update changes and what a filesystem
//! event leads to.

pub mod clean;
pub mod list;
pub mod project_builder;
pub mod scan;
pub mod size_calculator;
pub mod timing;
pub mod update;
pub mod watch;

pub use clean::{clean_outcome, project_to_clean};
pub use list::{handle_list_projects, sort_by_id, ProjectListResult};
pub use project_builder::{
    create_malformed_project, create_package_project, create_project_at, create_project_from_path,
    create_workspace_project, determine_project_type, DirectoryFacts, ManifestInfo, PackageInfo,
};
pub use scan::{
    collect_project_paths, is_skipped_directory, partition_candidates, process_projects,
    project_directory, record_scan, should_visit, ScanPlan, ScanResult, ScanSettings, WalkEntry,
};
pub use size_calculator::{
    calculate_directory_size, calculate_project_size, calculate_target_directory_size,
    calculate_target_size, SizedEntry,
};
pub use timing::{
    cached_outcome, clear_timing_cache, duration_seconds, estimate_build_time, extract_total_time,
    get_cached_build_time,
    handle_refresh_timing, parse_time_string, parse_timing_report, report_outcome,
    select_timing_report, timings_after_check, TimingReport,
};
pub use update::{
    handle_update_projects, measurements_are_consistent, update_project_metrics,
    update_project_size_values, Measurement, UpdateResult,
};
pub use watch::{
    check_watch_request, create_new_watcher_config, is_new_manifest, plan_event,
    project_not_found, update_project_size_if_exists, watcher_name_or_default, ChangeKind,
    WatchAction, WatchEvent,
};
use vstd::prelude::*;

verus! {

/// What a command returns.
pub type CommandResult<T = ()> = crate::types::ProjectsResult<T>;

} // verus!
