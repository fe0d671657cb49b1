//! The rules behind the command line's workflow options: environment
//! variables given as `KEY=VALUE`, the limit on the time a workflow may
//! take, and how much the log shows at each verbosity.

use vstd::prelude::*;
use vstd::string::*;

use crate::text::{chars_of, decimal, decimal_string, string_from_range};

verus! {

/// The longest time, in seconds, that a workflow may be given.
pub const MAX_TIMEOUT: u64 = 60;

/// The message for an environment variable that is not `KEY=VALUE`.
pub open spec fn bad_env_var_message(var: Seq<char>) -> Seq<char> {
    "Invalid environment variable: '"@ + var + "'. Must be KEY=VALUE."@
}

/// The variable `var` splits at its first `=` into a key and a value.
pub open spec fn env_var_split(var: Seq<char>, key: Seq<char>, value: Seq<char>) -> bool {
    exists|i: int|
        0 <= i < var.len() && var[i] == '=' && (forall|j: int| 0 <= j < i ==> var[j] != '=') && key
            == var.subrange(0, i) && value == var.subrange(i + 1, var.len() as int)
}

/// Splits an environment variable given as `KEY=VALUE` at its first `=`;
/// one without `=` is refused.
pub fn parse_env_var(var: &str) -> (r: Result<(String, String), String>)
    ensures
        match r {
            Ok((k, v)) => env_var_split(var@, k@, v@),
            Err(m) => m@ == bad_env_var_message(var@) && forall|i: int|
                0 <= i < var@.len() ==> var@[i] != '=',
        },
{
    let v = chars_of(var);
    let mut i: usize = 0;
    while i < v.len()
        invariant
            i <= v@.len(),
            v@ == var@,
            forall|j: int| 0 <= j < i ==> v@[j] != '=',
        decreases v@.len() - i,
    {
        if v[i] == '=' {
            let key = string_from_range(&v, 0, i);
            let value = string_from_range(&v, i + 1, v.len());
            return Ok((key, value));
        }
        i = i + 1;
    }
    let mut m = String::from_str("Invalid environment variable: '");
    m.append(var);
    m.append("'. Must be KEY=VALUE.");
    Err(m)
}

/// The message for a timeout above `MAX_TIMEOUT`.
pub open spec fn timeout_message(timeout: u64) -> Seq<char> {
    "Failed to validate global scope: Timeout "@ + decimal(timeout as nat) + " exceeds the maximum of 60 seconds."@
}

/// Refuses a timeout above `MAX_TIMEOUT` seconds.
pub fn validate_timeout(timeout: u64) -> (r: Result<(), String>)
    ensures
        timeout <= MAX_TIMEOUT ==> r is Ok,
        timeout > MAX_TIMEOUT ==> (r matches Err(m) && m@ == timeout_message(timeout)),
{
    if timeout <= MAX_TIMEOUT {
        return Ok(());
    }
    let mut m = String::from_str("Failed to validate global scope: Timeout ");
    m.append(decimal_string(timeout).as_str());
    m.append(" exceeds the maximum of 60 seconds.");
    Err(m)
}

/// How much the log shows.
#[derive(Debug, Clone, Copy, PartialEq, Eq, Structural)]
pub enum LogLevel {
    Warn,
    Debug,
    Trace,
}

/// How the log is shown at a verbosity: its level, and whether each line
/// carries a timestamp (in seconds) and the name of its target.
#[derive(Debug, Clone, Copy, PartialEq, Eq, Structural)]
pub struct LogSettings {
    pub level: LogLevel,
    pub timestamps: bool,
    pub targets: bool,
}

/// The log at `verbosity`: warnings only at 0, debugging at 1, tracing
/// above; debugging and tracing lines carry timestamps, warnings carry
/// neither timestamps nor targets.
pub fn log_settings(verbosity: u8) -> (r: LogSettings)
    ensures
        r.level == (if verbosity == 0 {
            LogLevel::Warn
        } else if verbosity == 1 {
            LogLevel::Debug
        } else {
            LogLevel::Trace
        }),
        r.timestamps == (verbosity > 0),
        r.targets == (verbosity > 0),
{
    let level = if verbosity == 0 {
        LogLevel::Warn
    } else if verbosity == 1 {
        LogLevel::Debug
    } else {
        LogLevel::Trace
    };
    let detailed = verbosity > 0;
    LogSettings { level, timestamps: detailed, targets: detailed }
}

} // verus!
