//! Releasing a project: a build, then `release-it`, each run through
//! `npx`.

use vstd::prelude::*;
use vstd::string::*;

use crate::cargo_node::exec::{
    all_succeeded, error_text as run_error_text, first_failed_at, first_failure, joined_args,
    npx_config, Config, Error as RunError,
};
use crate::integration::strs;
use crate::integration::tsup;

verus! {

/// Why the release failed.
#[derive(Debug, Clone, PartialEq, Eq)]
pub enum Error {
    /// `release-it` failed.
    ReleaseItError(RunError),
    /// The build before it failed.
    TsupError(tsup::Error),
}

/// The message of a failure.
pub open spec fn error_text(e: Error) -> Seq<char> {
    match e {
        Error::ReleaseItError(err) => run_error_text(err),
        Error::TsupError(err) => tsup::error_text(err),
    }
}

impl Error {
    /// The message of the failure (see `error_text`).
    pub fn message(&self) -> (r: String)
        ensures
            r@ == error_text(*self),
    {
        match self {
            Error::ReleaseItError(err) => err.message(),
            Error::TsupError(err) => err.message(),
        }
    }
}

/// The arguments of `npx` for `release-it`.
pub open spec fn release_args(extra: Seq<Seq<char>>) -> Seq<Seq<char>> {
    seq!["release-it"@] + extra
}

/// The runs of a release in `work_dir`, in order: the runs of a build
/// with no extra arguments, then `npx release-it` with `extra_args`.
pub fn release(work_dir: &str, extra_args: Vec<String>) -> (r: Vec<Config>)
    ensures
        r@.len() == 3,
        forall|i: int| 0 <= i < 3 ==> {
            &&& (#[trigger] r@[i]).work_dir@ == work_dir@
            &&& r@[i].program@ == "npx"@
            &&& r@[i].env_vars is None
        },
        strs(r@[0].args@) == crate::integration::biome::biome_args("check"@, Seq::empty()),
        strs(r@[1].args@) == tsup::tsup_args(Seq::empty()),
        strs(r@[2].args@) == release_args(strs(extra_args@)),
{
    let none: Vec<String> = Vec::new();
    assert(strs(none@) =~= Seq::<Seq<char>>::empty());
    let mut r = tsup::build(work_dir, none);
    let mut head: Vec<String> = Vec::new();
    head.push(String::from_str("release-it"));
    let args = joined_args(head, extra_args);
    let publish = npx_config(work_dir, args, None);
    assert(strs(publish.args@) =~= release_args(strs(extra_args@)));
    r.push(publish);
    r
}

/// `err` reports the failure `e` of run `i` of a release.
pub open spec fn is_release_failure(i: int, e: RunError, err: Error) -> bool {
    if i < 2 {
        err matches Error::TsupError(b) && tsup::is_build_failure(i, e, b)
    } else {
        err == Error::ReleaseItError(e)
    }
}

/// What a release gives back from the results of its runs, made in
/// order until one failed: the first failure, reported, or else the
/// output of the last run.
pub fn release_outcome(results: Vec<Result<String, RunError>>) -> (r: Result<String, Error>)
    requires
        1 <= results@.len() <= 3,
    ensures
        r is Ok <==> all_succeeded(results@),
        r is Ok ==> r->Ok_0 == results@.last()->Ok_0,
        forall|i: int| #[trigger] first_failed_at(results@, i) ==> r is Err && is_release_failure(
            i,
            results@[i]->Err_0,
            r->Err_0,
        ),
{
    let ghost old_results = results@;
    let mut results = results;
    match first_failure(&results) {
        Some(i) => {
            let item = results.remove(i);
            assert(item == old_results[i as int]);
            match item {
                Err(e) => {
                    let r = if i < 2 {
                        Error::TsupError(tsup::failure_at(i, e))
                    } else {
                        Error::ReleaseItError(e)
                    };
                    assert forall|k: int| #[trigger] first_failed_at(old_results, k) implies k
                        == i by {
                        if k < i {
                            assert(old_results[k] is Ok);
                        } else if k > i {
                            assert(old_results[i as int] is Ok);
                        }
                    }
                    Err(r)
                },
                Ok(out) => Ok(out),
            }
        },
        None => {
            let last = results.pop();
            assert(old_results[old_results.len() - 1] is Ok);
            assert forall|k: int| #[trigger] first_failed_at(old_results, k) implies false by {
                assert(old_results[k] is Ok);
            }
            match last {
                Some(Ok(out)) => Ok(out),
                Some(Err(e)) => Err(Error::ReleaseItError(e)),
                None => Ok(String::new()),
            }
        },
    }
}

} // verus!
