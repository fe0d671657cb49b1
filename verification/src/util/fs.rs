//! File-system helpers: the memo of the git check and the package name
//! derived from a directory.

use vstd::prelude::*;
use vstd::string::*;

use crate::paths::{file_name, file_name_of};
use crate::text::push_char;

verus! {

/// Remembers the answer of the check whether the project is inside a git
/// repository, so that the check runs at most once.
#[derive(Debug, Clone, Default)]
pub struct FsCache {
    is_git_repo: Option<bool>,
}

impl FsCache {
    /// The remembered answer, if the check has run.
    pub closed spec fn remembered(&self) -> Option<bool> {
        self.is_git_repo
    }

    /// A memo with nothing remembered.
    pub fn new() -> (r: Self)
        ensures
            r.remembered() is None,
    {
        FsCache { is_git_repo: None }
    }

    /// The answer remembered for the git check, if it has run; when it has
    /// not, the caller runs it and hands the answer to `remember_git_repo`.
    pub fn is_git_repo(&self) -> (r: Option<bool>)
        ensures
            r == self.remembered(),
    {
        self.is_git_repo
    }

    /// Remembers the answer of the git check.
    pub fn remember_git_repo(&mut self, answer: bool)
        ensures
            final(self).remembered() == Some(answer),
    {
        self.is_git_repo = Some(answer);
    }
}

/// A package found in a workspace.
#[derive(Debug, Clone)]
pub struct PackageInfo {
    pub name: String,
}

/// `s` with `-` and space turned into `_`.
pub open spec fn underscored(s: Seq<char>) -> Seq<char>
    decreases s.len(),
{
    if s.len() == 0 {
        Seq::empty()
    } else {
        let c = s.last();
        underscored(s.drop_last()).push(
            if c == '-' || c == ' ' {
                '_'
            } else {
                c
            },
        )
    }
}

/// The package name for the directory `path`: its last component with `-`
/// and space turned into `_`, or `package` when it has none.
pub open spec fn dir_package_name(path: Seq<char>) -> Seq<char> {
    match file_name_of(path) {
        Some(n) => underscored(n),
        None => "package"@,
    }
}

/// The package name for the directory `path`: its last component with `-`
/// and space turned into `_`, or `package` when it has none.
pub fn get_package_name(path: &str) -> (r: String)
    ensures
        r@ == dir_package_name(path@),
{
    match file_name(path) {
        None => String::from_str("package"),
        Some(n) => {
            let v = crate::text::chars_of(n.as_str());
            let mut out = String::new();
            let mut i: usize = 0;
            while i < v.len()
                invariant
                    i <= v@.len(),
                    out@ == underscored(v@.subrange(0, i as int)),
                decreases v@.len() - i,
            {
                let c = v[i];
                push_char(&mut out, if c == '-' || c == ' ' { '_' } else { c });
                assert(v@.subrange(0, i + 1).drop_last() =~= v@.subrange(0, i as int));
                i = i + 1;
            }
            assert(v@.subrange(0, v@.len() as int) =~= v@);
            out
        },
    }
}

} // verus!
