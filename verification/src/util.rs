//! Helpers that depend on the platform and the file system.

pub mod fs;
pub mod platform;
