//! Stand-ins for the outside world.

pub mod filesystem;

pub use filesystem::{MockFileSystem, MockMetadata};
