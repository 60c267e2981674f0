[package]
name = "cargo-projects"
version = "0.1.0"
edition = "2021"
publish = false

[dependencies]
anyhow = "1"
byte-unit = "5"
cargo_metadata = "*"
chrono = { version = "0.4", features = ["serde"] }
clap = { version = "4", features = ["derive"] }
clap-cargo = "*"
dirs = "*"
env_logger = "*"
humantime = "2"
ignore = "0.4"
log = "0.4"
notify = "*"
notify-debouncer-full = "*"
rayon = "1"
ron = "*"
serde = { version = "1", features = ["derive"] }
tabled = "*"
thiserror = "*"
