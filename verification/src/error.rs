//! The error type of the library's scaffolding and task functions.

use vstd::prelude::*;

verus! {

/// Everything that can go wrong while creating a project or running a tool.
#[derive(Debug, Clone, PartialEq, Eq)]
pub enum Error {
    /// The destination directory already holds files.
    DirectoryNotEmpty { path: String },
    /// The path exists but is not a directory.
    DirectoryExists { path: String },
    /// The package name breaks the naming rules, for the given reason.
    InvalidPackageName { name: String, reason: String },
    /// A `package.json` manifest is already present.
    PackageJsonExists,
    /// A version-control operation failed.
    Git { message: String, details: String },
    /// A file-system operation failed, with the system's message.
    Io { message: String },
    /// A JSON document could not be read or written, with the parser's message.
    SerdeJson { message: String },
    /// The manifest could not be written.
    PackageJsonCreation(String),
    /// The configuration is missing or malformed.
    Config { message: String },
    /// The input files of a tool could not be gathered.
    Input { message: String },
    /// A tool exited unsuccessfully, with its exit code when it had one.
    CommandFailed { command: String, code: Option<i32> },
    /// The outputs of a tool could not be prepared.
    Output { message: String },
    /// The outputs of a tool are not as declared.
    OutputVerificationFailed { message: String, suggestion: String },
}

/// The result type of the library.
pub type Result<T> = core::result::Result<T, Error>;

} // verus!
