//! Building a project: a Biome check, then bundling with tsup, each run
//! through `npx`.

use vstd::prelude::*;
use vstd::string::*;

use crate::cargo_node::exec::{
    all_succeeded, error_text as run_error_text, first_failed_at, first_failure, joined_args,
    npx_config, Config, Error as RunError,
};
use crate::integration::biome;
use crate::integration::strs;

verus! {

/// Why the build failed.
#[derive(Debug, Clone, PartialEq, Eq)]
pub enum Error {
    /// The bundler failed.
    TsupError(RunError),
    /// The check before it failed.
    BiomeError(biome::Error),
}

/// The message of a failure.
pub open spec fn error_text(e: Error) -> Seq<char> {
    match e {
        Error::TsupError(err) => "Failed to execute tsup: "@ + run_error_text(err),
        Error::BiomeError(err) => biome::error_text(err),
    }
}

impl Error {
    /// The message of the failure (see `error_text`).
    pub fn message(&self) -> (r: String)
        ensures
            r@ == error_text(*self),
    {
        match self {
            Error::TsupError(err) => {
                let mut r = String::from_str("Failed to execute tsup: ");
                let m = err.message();
                r.append(m.as_str());
                r
            },
            Error::BiomeError(err) => err.message(),
        }
    }
}

/// The arguments of `npx` for the bundler.
pub open spec fn tsup_args(extra: Seq<Seq<char>>) -> Seq<Seq<char>> {
    seq!["tsup"@] + extra
}

/// The runs of a build in `work_dir`, in order: `npx biome check`, then
/// `npx tsup` with `extra_args`.
pub fn build(work_dir: &str, extra_args: Vec<String>) -> (r: Vec<Config>)
    ensures
        r@.len() == 2,
        forall|i: int| 0 <= i < 2 ==> {
            &&& (#[trigger] r@[i]).work_dir@ == work_dir@
            &&& r@[i].program@ == "npx"@
            &&& r@[i].env_vars is None
        },
        strs(r@[0].args@) == biome::biome_args("check"@, Seq::empty()),
        strs(r@[1].args@) == tsup_args(strs(extra_args@)),
{
    let none: Vec<String> = Vec::new();
    assert(strs(none@) =~= Seq::<Seq<char>>::empty());
    let check = biome::check(work_dir, none);
    let mut head: Vec<String> = Vec::new();
    head.push(String::from_str("tsup"));
    let args = joined_args(head, extra_args);
    let bundle = npx_config(work_dir, args, None);
    assert(strs(bundle.args@) =~= tsup_args(strs(extra_args@)));
    let mut r: Vec<Config> = Vec::new();
    r.push(check);
    r.push(bundle);
    r
}

/// `err` reports the failure `e` of run `i` of a build.
pub open spec fn is_build_failure(i: int, e: RunError, err: Error) -> bool {
    if i == 0 {
        err matches Error::BiomeError(biome::Error::BiomeError(x, operation)) && x == e
            && operation@ == "check"@
    } else {
        err == Error::TsupError(e)
    }
}

/// The report of the failure `e` of run `i` of a build.
pub fn failure_at(i: usize, e: RunError) -> (r: Error)
    requires
        i < 2,
    ensures
        is_build_failure(i as int, e, r),
{
    if i == 0 {
        Error::BiomeError(biome::Error::BiomeError(e, String::from_str("check")))
    } else {
        Error::TsupError(e)
    }
}

/// What a build gives back from the results of its runs, made in order
/// until one failed: the first failure, reported, or else the output of
/// the last run.
pub fn build_outcome(results: Vec<Result<String, RunError>>) -> (r: Result<String, Error>)
    requires
        1 <= results@.len() <= 2,
    ensures
        r is Ok <==> all_succeeded(results@),
        r is Ok ==> r->Ok_0 == results@.last()->Ok_0,
        forall|i: int| #[trigger] first_failed_at(results@, i) ==> r is Err && is_build_failure(
            i,
            results@[i]->Err_0,
            r->Err_0,
        ),
{
    let ghost old_results = results@;
    let mut results = results;
    match first_failure(&results) {
        Some(i) => {
            let item = results.remove(i);
            assert(item == old_results[i as int]);
            match item {
                Err(e) => {
                    let r = failure_at(i, e);
                    assert forall|k: int| #[trigger] first_failed_at(old_results, k) implies k
                        == i by {
                        if k < i {
                            assert(old_results[k] is Ok);
                        } else if k > i {
                            assert(old_results[i as int] is Ok);
                        }
                    }
                    Err(r)
                },
                Ok(out) => Ok(out),
            }
        },
        None => {
            let last = results.pop();
            assert(old_results[old_results.len() - 1] is Ok);
            assert forall|k: int| #[trigger] first_failed_at(old_results, k) implies false by {
                assert(old_results[k] is Ok);
            }
            match last {
                Some(Ok(out)) => Ok(out),
                Some(Err(e)) => Err(Error::TsupError(e)),
                None => Ok(String::new()),
            }
        },
    }
}

} // verus!
