//! How an external command is described before it is run: the program,
//! its arguments, working directory and environment, and the line shown
//! when it starts.

use vstd::prelude::*;
use vstd::string::*;

use crate::integration::{strs, pairs};
use crate::text::{append_str, join};

verus! {

/// What to run, where, and with what.
#[derive(Debug, Clone)]
pub struct Config {
    /// Specifies the working directory for the command.
    pub work_dir: String,
    /// Specifies the program to execute.
    pub program: &'static str,
    /// Specifies the arguments to pass to the command.
    pub args: Vec<String>,
    /// Specifies optional environment variables for the command.
    pub env_vars: Option<Vec<(String, String)>>,
}

/// A run of `npx` with `args` in `work_dir`, with the given environment.
pub fn npx_config(work_dir: &str, args: Vec<String>, env_vars: Option<Vec<(String, String)>>) -> (r: Config)
    ensures
        r.work_dir@ == work_dir@,
        r.program@ == "npx"@,
        r.args == args,
        r.env_vars == env_vars,
{
    Config { work_dir: work_dir.to_owned(), program: "npx", args, env_vars }
}

/// The command as shown: the program, then its arguments separated by
/// single spaces.
pub open spec fn command_text(program: Seq<char>, args: Seq<Seq<char>>) -> Seq<char> {
    if args.len() == 0 {
        program
    } else {
        program + " "@ + join(args, " "@)
    }
}

/// The command of `config` as shown when it starts.
pub fn command_line(config: &Config) -> (r: String)
    ensures
        r@ == command_text(config.program@, strs(config.args@)),
{
    let mut r = config.program.to_owned();
    if config.args.len() > 0 {
        append_str(&mut r, " ");
        let mut i: usize = 0;
        let ghost base = r@;
        assert(strs(config.args@).subrange(0, 0) =~= Seq::<Seq<char>>::empty());
        while i < config.args.len()
            invariant
                i <= config.args@.len(),
                config.args@.len() > 0,
                i == 0 ==> r@ == base,
                i > 0 ==> r@ == base + join(strs(config.args@).subrange(0, i as int), " "@),
            decreases config.args@.len() - i,
        {
            let ghost done = strs(config.args@).subrange(0, i as int);
            if i > 0 {
                append_str(&mut r, " ");
                proof {
                    crate::text::lemma_join_push(done, config.args@[i as int]@, " "@);
                }
            } else {
                assert(strs(config.args@).subrange(0, 1) =~= seq![config.args@[0]@]);
            }
            append_str(&mut r, config.args[i].as_str());
            assert(strs(config.args@).subrange(0, i + 1) =~= done.push(config.args@[i as int]@));
            i = i + 1;
        }
        assert(strs(config.args@).subrange(0, config.args@.len() as int) =~= strs(config.args@));
    }
    r
}


/// Why a command could not be run or failed, with the system's messages.
#[derive(Debug, Clone, PartialEq, Eq)]
pub enum ExecFailure {
    /// The program could not be started.
    Execute(String),
    /// Its output was not text.
    ReadOutput(String),
    /// It exited unsuccessfully: what it wrote, and its exit status as
    /// shown, when it had one.
    ExitFailure { stdout: String, stderr: String, exit_status: Option<String> },
}

/// The message of a failure.
pub open spec fn failure_text(f: ExecFailure) -> Seq<char> {
    match f {
        ExecFailure::Execute(e) => "Failed to execute command: "@ + e@,
        ExecFailure::ReadOutput(e) => "Failed to read command output: "@ + e@,
        ExecFailure::ExitFailure { stdout, stderr, exit_status } => "Command failed"@ + (match exit_status {
            Some(s) => " with exit status: "@ + s@,
            None => Seq::empty(),
        }) + (if stdout@.len() == 0 {
            Seq::empty()
        } else {
            "\n\nstdout:\n"@ + stdout@
        }) + (if stderr@.len() == 0 {
            Seq::empty()
        } else {
            "\n\nstderr:\n"@ + stderr@
        }),
    }
}

impl ExecFailure {
    /// The message of the failure (see `failure_text`).
    pub fn message(&self) -> (r: String)
        ensures
            r@ == failure_text(*self),
    {
        match self {
            ExecFailure::Execute(e) => {
                let mut r = String::from_str("Failed to execute command: ");
                r.append(e.as_str());
                r
            },
            ExecFailure::ReadOutput(e) => {
                let mut r = String::from_str("Failed to read command output: ");
                r.append(e.as_str());
                r
            },
            ExecFailure::ExitFailure { stdout, stderr, exit_status } => {
                let mut r = String::from_str("Command failed");
                match exit_status {
                    Some(s) => {
                        r.append(" with exit status: ");
                        r.append(s.as_str());
                    },
                    None => {},
                }
                let ghost head = r@;
                if stdout.unicode_len() > 0 {
                    r.append("\n\nstdout:\n");
                    r.append(stdout.as_str());
                }
                let ghost mid = r@;
                if stderr.unicode_len() > 0 {
                    r.append("\n\nstderr:\n");
                    r.append(stderr.as_str());
                }
                proof {
                    if stdout@.len() == 0 {
                        assert(mid =~= head + Seq::<char>::empty());
                    }
                    if stderr@.len() == 0 {
                        assert(r@ =~= mid + Seq::<char>::empty());
                    }
                }
                r
            },
        }
    }

    /// The message of the failure of the predefined command `command`.
    pub fn in_command(&self, command: &str) -> (r: String)
        ensures
            r@ == "Failed to execute command '"@ + command@ + "': "@ + failure_text(*self),
    {
        let mut r = String::from_str("Failed to execute command '");
        r.append(command);
        r.append("': ");
        r.append(self.message().as_str());
        r
    }
}

} // verus!
