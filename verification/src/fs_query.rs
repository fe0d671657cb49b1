//! Queries of the file system that the library's decisions depend on.
//! What they answer depends on the disk, so nothing is promised of it:
//! the functions that call them are verified for every answer.

use vstd::prelude::*;

verus! {

/// Calls `std::path::Path::exists` on `path`; the answer depends on the disk.
#[verifier::external_body]
pub(crate) fn path_exists(path: &str) -> bool {
    std::path::Path::new(path).exists()
}

/// Calls `std::path::Path::is_dir` on `path`; the answer depends on the disk.
#[verifier::external_body]
pub(crate) fn path_is_dir(path: &str) -> bool {
    std::path::Path::new(path).is_dir()
}

/// Calls `std::path::Path::is_file` on `path`; the answer depends on the disk.
#[verifier::external_body]
pub(crate) fn path_is_file(path: &str) -> bool {
    std::path::Path::new(path).is_file()
}

/// Calls `std::path::Path::is_symlink` on `path`; the answer depends on the disk.
#[verifier::external_body]
pub(crate) fn path_is_symlink(path: &str) -> bool {
    std::path::Path::new(path).is_symlink()
}

/// Calls `std::path::Path::read_dir` on `path` and asks its iterator for a
/// first entry, giving the system's message on failure; the answer
/// depends on the disk.
#[verifier::external_body]
pub(crate) fn dir_has_entries(path: &str) -> core::result::Result<bool, String> {
    match std::path::Path::new(path).read_dir() {
        Ok(mut entries) => Ok(entries.next().is_some()),
        Err(e) => Err(e.to_string()),
    }
}


/// Calls `glob::glob` on `pattern` and walks the matches it yields: the
/// pattern's error as its message, or each match as its path (lossily
/// written as text) or the error met reaching it, as it reads itself and
/// as the underlying I/O error reads. What it yields depends on the disk.
#[verifier::external_body]
pub(crate) fn glob_matches(pattern: &str) -> core::result::Result<
    Vec<core::result::Result<String, (String, String)>>,
    String,
> {
    let paths = glob::glob(pattern).map_err(|e| e.to_string())?;
    let mut found = Vec::new();
    for p in paths {
        found.push(match p {
            Ok(path) => Ok(path.to_string_lossy().to_string()),
            Err(e) => Err((e.to_string(), e.into_error().to_string())),
        });
    }
    Ok(found)
}

} // verus!
