//! Errors of project creation.

use vstd::prelude::*;

verus! {

/// Everything that can go wrong while creating a project.
#[derive(Debug, Clone, PartialEq, Eq)]
pub enum Error {
    /// A file-system operation failed, with the system's message.
    Io(String),
    /// A JSON document could not be read, with the parser's message.
    Json(String),
    ProjectExists(String),
    InvalidProjectName(String),
    InvalidScopeName(String),
    InvalidPackageName(String),
    ReservedPackageName(String),
    Template(String),
    Vcs(String),
    Permission(String),
    InvalidPath(String),
    Registry(String),
    Network(String),
    Workspace(String),
}

/// The result type of project creation.
pub type Result<T> = core::result::Result<T, Error>;

} // verus!
