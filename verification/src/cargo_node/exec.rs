//! How a command is described before it is run, and how its failure is
//! reported.

use vstd::prelude::*;
use vstd::string::*;

pub use crate::exec::{command_line, npx_config, Config};
use crate::text::{decimal, decimal_string};

verus! {

/// Why a run of an external program failed, with the system's messages.
#[derive(Debug, Clone, PartialEq, Eq)]
pub enum Error {
    /// The program could not be started.
    FailedToExecute(String),
    /// Its output was not UTF-8 text.
    FailedToReadOutput(String),
    /// It exited unsuccessfully: what it wrote, and its exit code when it
    /// had one.
    ExitFailure { stdout: String, stderr: String, exit_status: Option<i32> },
    /// It did not finish in time.
    Timeout,
}

/// The decimal notation of `n`, with a leading `-` when it is negative.
pub open spec fn signed_decimal(n: int) -> Seq<char> {
    if n < 0 {
        "-"@ + decimal((0 - n) as nat)
    } else {
        decimal(n as nat)
    }
}

/// The decimal text of `n`.
pub fn signed_decimal_string(n: i32) -> (s: String)
    ensures
        s@ == signed_decimal(n as int),
{
    if n < 0 {
        let magnitude: u64 = (0i64 - (n as i64)) as u64;
        let digits = decimal_string(magnitude);
        let mut s = String::from_str("-");
        s.append(digits.as_str());
        s
    } else {
        decimal_string(n as u64)
    }
}

/// The message of a failure.
pub open spec fn error_text(e: Error) -> Seq<char> {
    match e {
        Error::FailedToExecute(m) => "Failed to execute command: "@ + m@,
        Error::FailedToReadOutput(m) => "Failed to read command output: "@ + m@,
        Error::ExitFailure { stdout, stderr, exit_status } => "Command failed"@ + (match exit_status {
            Some(code) => " with status: "@ + signed_decimal(code as int),
            None => Seq::empty(),
        }) + "\nstdout:\n"@ + stdout@ + "\nstderr:\n"@ + stderr@,
        Error::Timeout => "Command timed out"@,
    }
}

impl Error {
    /// The message of the failure (see `error_text`).
    pub fn message(&self) -> (r: String)
        ensures
            r@ == error_text(*self),
    {
        match self {
            Error::FailedToExecute(m) => {
                let mut r = String::from_str("Failed to execute command: ");
                r.append(m.as_str());
                r
            },
            Error::FailedToReadOutput(m) => {
                let mut r = String::from_str("Failed to read command output: ");
                r.append(m.as_str());
                r
            },
            Error::ExitFailure { stdout, stderr, exit_status } => {
                let mut r = String::from_str("Command failed");
                let ghost head = r@;
                match exit_status {
                    Some(code) => {
                        r.append(" with status: ");
                        let digits = signed_decimal_string(*code);
                        r.append(digits.as_str());
                    },
                    None => {
                        assert(r@ =~= head + Seq::<char>::empty());
                    },
                }
                r.append("\nstdout:\n");
                r.append(stdout.as_str());
                r.append("\nstderr:\n");
                r.append(stderr.as_str());
                r
            },
            Error::Timeout => String::from_str("Command timed out"),
        }
    }
}

/// The arguments `head` followed by `extra`.
pub fn joined_args(head: Vec<String>, extra: Vec<String>) -> (r: Vec<String>)
    ensures
        r@ == head@ + extra@,
{
    let mut r = head;
    let mut extra = extra;
    r.append(&mut extra);
    r
}

/// Every run in `results` succeeded.
pub open spec fn all_succeeded(results: Seq<Result<String, Error>>) -> bool {
    forall|j: int| 0 <= j < results.len() ==> #[trigger] results[j] is Ok
}

/// The run at `i` is the first of `results` that failed.
pub open spec fn first_failed_at(results: Seq<Result<String, Error>>, i: int) -> bool {
    &&& 0 <= i < results.len()
    &&& results[i] is Err
    &&& forall|j: int| 0 <= j < i ==> #[trigger] results[j] is Ok
}

/// The position of the first failed run among `results`, if any.
pub fn first_failure(results: &Vec<Result<String, Error>>) -> (r: Option<usize>)
    ensures
        r is None <==> all_succeeded(results@),
        r matches Some(i) ==> first_failed_at(results@, i as int),
{
    let mut i: usize = 0;
    while i < results.len()
        invariant
            i <= results@.len(),
            forall|j: int| 0 <= j < i ==> #[trigger] results@[j] is Ok,
        decreases results@.len() - i,
    {
        if results[i].is_err() {
            return Some(i);
        }
        i = i + 1;
    }
    None
}

} // verus!
