//! The project configuration checks, as the commands use them.

pub use crate::config::{validate_init_config, validate_project_config, ProjectConfig};
