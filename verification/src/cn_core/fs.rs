//! File-system operations with the permissions new projects get, and how
//! their failures are reported.

use vstd::prelude::*;
use vstd::string::*;

use crate::cn_core::Error;

verus! {

/// The permissions of a created directory.
pub const DEFAULT_DIR_MODE: u32 = 0o755;

/// The permissions of a written file.
pub const DEFAULT_FILE_MODE: u32 = 0o644;

/// The permissions of a written executable file.
pub const DEFAULT_EXEC_MODE: u32 = 0o755;

/// The permissions a written file gets.
pub fn file_mode(is_executable: bool) -> (m: u32)
    ensures
        m == (if is_executable {
            DEFAULT_EXEC_MODE
        } else {
            DEFAULT_FILE_MODE
        }),
{
    if is_executable {
        DEFAULT_EXEC_MODE
    } else {
        DEFAULT_FILE_MODE
    }
}

/// A file-system operation whose failure is reported.
#[derive(Debug, Clone, Copy, PartialEq, Eq)]
pub enum FsOperation {
    CreateDirectory,
    CreateFile,
    ReadFile,
    RemoveDirectory,
    RemoveFile,
}

/// The words that name an operation in a message.
pub open spec fn operation_words(op: FsOperation) -> Seq<char> {
    match op {
        FsOperation::CreateDirectory => "creating directory"@,
        FsOperation::CreateFile => "creating file"@,
        FsOperation::ReadFile => "reading file"@,
        FsOperation::RemoveDirectory => "removing directory"@,
        FsOperation::RemoveFile => "removing file"@,
    }
}

/// How removing `path` goes: as a directory when it is one, else as a file.
pub fn removal_of(is_dir: bool) -> (op: FsOperation)
    ensures
        op == (if is_dir {
            FsOperation::RemoveDirectory
        } else {
            FsOperation::RemoveFile
        }),
{
    if is_dir {
        FsOperation::RemoveDirectory
    } else {
        FsOperation::RemoveFile
    }
}

/// The error for a failed operation on `path`: a refused permission is
/// named with the operation and the path, anything else keeps the
/// system's message.
pub fn fs_failure(op: FsOperation, path: &str, permission_denied: bool, message: String) -> (e: Error)
    ensures
        permission_denied ==> (e matches Error::Permission(m) && m@ == "Permission denied when "@
            + operation_words(op) + ": "@ + path@),
        !permission_denied ==> e == Error::Io(message),
{
    if permission_denied {
        let mut m = String::from_str("Permission denied when ");
        m.append(
            match op {
                FsOperation::CreateDirectory => "creating directory",
                FsOperation::CreateFile => "creating file",
                FsOperation::ReadFile => "reading file",
                FsOperation::RemoveDirectory => "removing directory",
                FsOperation::RemoveFile => "removing file",
            },
        );
        m.append(": ");
        m.append(path);
        Error::Permission(m)
    } else {
        Error::Io(message)
    }
}

} // verus!
