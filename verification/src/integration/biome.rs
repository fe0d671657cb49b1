//! Formatting and checking a project with Biome, run through `npx`.

use vstd::prelude::*;
use vstd::string::*;

use crate::cargo_node::exec::{error_text as run_error_text, joined_args, npx_config, Config, Error as RunError};
use crate::integration::strs;

verus! {

/// Why a Biome operation failed: the failure of the run, and the
/// operation.
#[derive(Debug, Clone, PartialEq, Eq)]
pub enum Error {
    BiomeError(RunError, String),
}

/// The message of a failure.
pub open spec fn error_text(e: Error) -> Seq<char> {
    match e {
        Error::BiomeError(err, operation) => "Failed to "@ + operation@ + ": "@ + run_error_text(err),
    }
}

impl Error {
    /// The message of the failure (see `error_text`).
    pub fn message(&self) -> (r: String)
        ensures
            r@ == error_text(*self),
    {
        match self {
            Error::BiomeError(err, operation) => {
                let mut r = String::from_str("Failed to ");
                r.append(operation.as_str());
                r.append(": ");
                let m = err.message();
                r.append(m.as_str());
                r
            },
        }
    }
}

/// The arguments of `npx` for the Biome operation `command`.
pub open spec fn biome_args(command: Seq<char>, extra: Seq<Seq<char>>) -> Seq<Seq<char>> {
    seq!["biome"@, command] + extra
}

/// The run of `npx biome <command>` with `extra_args` in `work_dir`.
pub fn run_biome_command(work_dir: &str, command: &str, extra_args: Vec<String>) -> (r: Config)
    ensures
        r.work_dir@ == work_dir@,
        r.program@ == "npx"@,
        strs(r.args@) == biome_args(command@, strs(extra_args@)),
        r.env_vars is None,
{
    let mut head: Vec<String> = Vec::new();
    head.push(String::from_str("biome"));
    head.push(command.to_owned());
    let args = joined_args(head, extra_args);
    let r = npx_config(work_dir, args, None);
    assert(strs(r.args@) =~= biome_args(command@, strs(extra_args@)));
    r
}

/// The run that formats the project in `work_dir`.
pub fn format(work_dir: &str, extra_args: Vec<String>) -> (r: Config)
    ensures
        r.work_dir@ == work_dir@,
        r.program@ == "npx"@,
        strs(r.args@) == biome_args("format"@, strs(extra_args@)),
        r.env_vars is None,
{
    run_biome_command(work_dir, "format", extra_args)
}

/// The run that checks the project in `work_dir`.
pub fn check(work_dir: &str, extra_args: Vec<String>) -> (r: Config)
    ensures
        r.work_dir@ == work_dir@,
        r.program@ == "npx"@,
        strs(r.args@) == biome_args("check"@, strs(extra_args@)),
        r.env_vars is None,
{
    run_biome_command(work_dir, "check", extra_args)
}

/// What the run of the Biome operation `command` gives back: its output,
/// or its failure with the operation named.
pub fn outcome(command: &str, result: Result<String, RunError>) -> (r: Result<String, Error>)
    ensures
        match r {
            Ok(out) => result is Ok && out == result->Ok_0,
            Err(Error::BiomeError(err, operation)) => result is Err && err == result->Err_0
                && operation@ == command@,
        },
{
    match result {
        Ok(out) => Ok(out),
        Err(err) => Err(Error::BiomeError(err, command.to_owned())),
    }
}

} // verus!
