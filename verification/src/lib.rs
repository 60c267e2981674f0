//! Tracking of local Cargo projects: a registry of discovered projects with a
//! path index, the rules that classify and build project records, and the
//! decisions behind scanning, updating and watching directories.
//!
//! Everything here works on plain values. Walking directories, resolving
//! manifests and reading or writing files is left to the caller, which hands
//! the results in and carries the decisions out.

pub mod commands;
pub mod external;
pub mod infrastructure;
pub mod output;
pub mod services;
pub mod text;
pub mod types;

