//! Where the registries are kept.

pub mod config_service;

pub use config_service::AppConfig;
