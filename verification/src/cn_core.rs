//! Core types of project creation: project kinds, version control,
//! paths, templates, package managers and dependencies.

pub mod dependency;
pub mod error;
pub mod fs;
pub mod package_manager;
pub mod path;
pub mod registry;
pub mod template;

pub use error::{Error, Result};

use vstd::prelude::*;

verus! {

/// Type of Node.js project to create
#[derive(Debug, Clone, Copy, PartialEq, Eq, Structural)]
pub enum ProjectType {
    /// A Node.js application (default)
    Application,
    /// A Node.js library
    Library,
    /// A Node.js CLI application
    Cli,
}

impl Default for ProjectType {
    fn default() -> (t: Self)
        ensures
            t == ProjectType::Application,
    {
        ProjectType::Application
    }
}

/// Version Control System to use
#[derive(Debug, Clone, Copy, PartialEq, Eq, Structural)]
pub enum Vcs {
    /// Git (default)
    Git,
    /// No version control
    Disabled,
}

impl Default for Vcs {
    fn default() -> (v: Self)
        ensures
            v == Vcs::Git,
    {
        Vcs::Git
    }
}

} // verus!
