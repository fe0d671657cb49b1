//! Running a project's tests once with Vitest, through `npx`.

use vstd::prelude::*;
use vstd::string::*;

use crate::cargo_node::exec::{error_text as run_error_text, joined_args, npx_config, Config, Error as RunError};
use crate::integration::strs;

verus! {

/// Why the test run failed.
#[derive(Debug, Clone, PartialEq, Eq)]
pub enum Error {
    VitestError(RunError),
}

/// The message of a failure.
pub open spec fn error_text(e: Error) -> Seq<char> {
    match e {
        Error::VitestError(err) => "Failed to execute vitest: "@ + run_error_text(err),
    }
}

impl Error {
    /// The message of the failure (see `error_text`).
    pub fn message(&self) -> (r: String)
        ensures
            r@ == error_text(*self),
    {
        match self {
            Error::VitestError(err) => {
                let mut r = String::from_str("Failed to execute vitest: ");
                let m = err.message();
                r.append(m.as_str());
                r
            },
        }
    }
}

/// The arguments of `npx` for a single test run.
pub open spec fn vitest_args(extra: Seq<Seq<char>>) -> Seq<Seq<char>> {
    seq!["vitest"@, "run"@] + extra
}

/// The run of `npx vitest run` with `extra_args` in `work_dir`.
pub fn test(work_dir: &str, extra_args: Vec<String>) -> (r: Config)
    ensures
        r.work_dir@ == work_dir@,
        r.program@ == "npx"@,
        strs(r.args@) == vitest_args(strs(extra_args@)),
        r.env_vars is None,
{
    let mut head: Vec<String> = Vec::new();
    head.push(String::from_str("vitest"));
    head.push(String::from_str("run"));
    let args = joined_args(head, extra_args);
    let r = npx_config(work_dir, args, None);
    assert(strs(r.args@) =~= vitest_args(strs(extra_args@)));
    r
}

/// What the test run gives back: its output, or its failure.
pub fn outcome(result: Result<String, RunError>) -> (r: Result<String, Error>)
    ensures
        match r {
            Ok(out) => result is Ok && out == result->Ok_0,
            Err(Error::VitestError(err)) => result is Err && err == result->Err_0,
        },
{
    match result {
        Ok(out) => Ok(out),
        Err(err) => Err(Error::VitestError(err)),
    }
}

} // verus!
