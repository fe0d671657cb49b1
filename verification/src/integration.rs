//! The predefined commands of the tool and their configuration: the
//! defaults of each command and how a configuration file overrides them.

use vstd::prelude::*;
use vstd::string::*;

use crate::ops::replace::map_of;
use crate::text::{chars_of, trims_to_empty, trims_to_empty_exec};

pub mod biome;
pub mod release_it;
pub mod tsup;
pub mod vitest;

verus! {

/// The predefined commands.
#[derive(Debug, Clone, Copy, PartialEq, Eq, Structural)]
pub enum Command {
    /// Formats the project code.
    Format,
    /// Runs linting and checks.
    Check,
    /// Builds the project.
    Build,
    /// Runs the test suite.
    Test,
    /// Releases the project.
    Release,
}

/// The name of a command.
pub open spec fn command_name(c: Command) -> Seq<char> {
    match c {
        Command::Format => "format"@,
        Command::Check => "check"@,
        Command::Build => "build"@,
        Command::Test => "test"@,
        Command::Release => "release"@,
    }
}

/// The command with name `s`, if any.
pub open spec fn command_named(s: Seq<char>) -> Option<Command> {
    if s == "format"@ {
        Some(Command::Format)
    } else if s == "check"@ {
        Some(Command::Check)
    } else if s == "build"@ {
        Some(Command::Build)
    } else if s == "test"@ {
        Some(Command::Test)
    } else if s == "release"@ {
        Some(Command::Release)
    } else {
        None
    }
}

/// The configuration of one command.
#[derive(Debug, Clone, PartialEq, Eq)]
pub struct CommandConfig {
    /// The command to be executed.
    pub command: String,
    /// The arguments to pass to the command.
    pub args: Vec<String>,
    /// Commands to run before this one, by name.
    pub pre_checks: Vec<String>,
    /// Environment variables, a later pair overriding an earlier one with
    /// the same name.
    pub env_vars: Vec<(String, String)>,
}

/// The texts of a list of strings.
pub open spec fn strs(v: Seq<String>) -> Seq<Seq<char>> {
    Seq::new(v.len(), |i: int| v[i]@)
}

/// The texts of a list of pairs of strings.
pub open spec fn pairs(v: Seq<(String, String)>) -> Seq<(Seq<char>, Seq<char>)> {
    Seq::new(v.len(), |i: int| (v[i].0@, v[i].1@))
}

pub proof fn lemma_strs_push(s: Seq<String>, x: String)
    ensures
        strs(s.push(x)) == strs(s).push(x@),
{
    assert(strs(s.push(x)) =~= strs(s).push(x@));
}

pub proof fn lemma_pairs_push(s: Seq<(String, String)>, x: (String, String))
    ensures
        pairs(s.push(x)) == pairs(s).push((x.0@, x.1@)),
{
    assert(pairs(s.push(x)) =~= pairs(s).push((x.0@, x.1@)));
}

/// A copy of a list of strings.
pub(crate) fn copy_strings(v: &Vec<String>) -> (r: Vec<String>)
    ensures
        strs(r@) == strs(v@),
{
    let mut r: Vec<String> = Vec::new();
    let mut i: usize = 0;
    while i < v.len()
        invariant
            i <= v@.len(),
            strs(r@) == strs(v@).subrange(0, i as int),
        decreases v@.len() - i,
    {
        let ghost before = r@;
        let c = v[i].clone();
        assert(c@ == v@[i as int]@);
        r.push(c);
        assert(r@ == before.push(c));
        proof {
            lemma_strs_push(before, c);
        }
        i = i + 1;
        assert(strs(r@) =~= strs(v@).subrange(0, i as int));
    }
    assert(strs(v@).subrange(0, v@.len() as int) =~= strs(v@));
    r
}

/// `a` followed by `b`, as pairs of strings.
fn concat_pairs(a: &Vec<(String, String)>, b: &Vec<(String, String)>) -> (r: Vec<(String, String)>)
    ensures
        pairs(r@) == pairs(a@) + pairs(b@),
{
    let mut r: Vec<(String, String)> = Vec::new();
    let mut i: usize = 0;
    while i < a.len()
        invariant
            i <= a@.len(),
            pairs(r@) == pairs(a@).subrange(0, i as int),
        decreases a@.len() - i,
    {
        let ghost before = r@;
        let x = (a[i].0.clone(), a[i].1.clone());
        r.push(x);
        proof {
            lemma_pairs_push(before, x);
        }
        i = i + 1;
        assert(pairs(r@) =~= pairs(a@).subrange(0, i as int));
    }
    let mut j: usize = 0;
    while j < b.len()
        invariant
            j <= b@.len(),
            pairs(r@) == pairs(a@) + pairs(b@).subrange(0, j as int),
        decreases b@.len() - j,
    {
        let ghost before = r@;
        let x = (b[j].0.clone(), b[j].1.clone());
        r.push(x);
        proof {
            lemma_pairs_push(before, x);
        }
        j = j + 1;
        assert(pairs(r@) =~= pairs(a@) + pairs(b@).subrange(0, j as int));
    }
    assert(pairs(b@).subrange(0, b@.len() as int) =~= pairs(b@));
    r
}

impl CommandConfig {
    /// A copy of this configuration.
    pub fn duplicate(&self) -> (r: Self)
        ensures
            r.command@ == self.command@,
            strs(r.args@) == strs(self.args@),
            strs(r.pre_checks@) == strs(self.pre_checks@),
            pairs(r.env_vars@) == pairs(self.env_vars@),
    {
        let empty: Vec<(String, String)> = Vec::new();
        let env_vars = concat_pairs(&self.env_vars, &empty);
        assert(pairs(self.env_vars@) + pairs(empty@) =~= pairs(self.env_vars@));
        CommandConfig {
            command: self.command.clone(),
            args: copy_strings(&self.args),
            pre_checks: copy_strings(&self.pre_checks),
            env_vars,
        }
    }
}

/// A list with one string.
fn one(s: &str) -> (r: Vec<String>)
    ensures
        strs(r@) == seq![s@],
{
    let mut r: Vec<String> = Vec::new();
    r.push(s.to_owned());
    assert(strs(r@) =~= seq![s@]);
    r
}

/// The default program, arguments and pre-checks of a command.
pub open spec fn default_parts(c: Command) -> (Seq<char>, Seq<Seq<char>>, Seq<Seq<char>>) {
    match c {
        Command::Format => ("biome"@, seq!["format"@], seq![""@]),
        Command::Check => ("biome"@, seq!["check"@], seq![""@]),
        Command::Build => ("tsup"@, seq![""@], seq!["check"@]),
        Command::Test => ("vitest"@, seq![""@], seq!["check"@]),
        Command::Release => ("release-it"@, seq![""@], seq!["build"@]),
    }
}

impl Command {
    /// The command's name.
    pub fn name(&self) -> (r: &'static str)
        ensures
            r@ == command_name(*self),
    {
        match self {
            Command::Format => "format",
            Command::Check => "check",
            Command::Build => "build",
            Command::Test => "test",
            Command::Release => "release",
        }
    }

    /// The command named `cmd`, if there is one.
    pub fn map_from_str(cmd: &str) -> (r: Option<Command>)
        ensures
            r == command_named(cmd@),
    {
        let s = cmd.to_owned();
        if s == String::from_str("format") {
            Some(Command::Format)
        } else if s == String::from_str("check") {
            Some(Command::Check)
        } else if s == String::from_str("build") {
            Some(Command::Build)
        } else if s == String::from_str("test") {
            Some(Command::Test)
        } else if s == String::from_str("release") {
            Some(Command::Release)
        } else {
            None
        }
    }

    /// The command's default configuration: its program, arguments and
    /// pre-checks, with no environment variables.
    pub fn default_config(&self) -> (r: CommandConfig)
        ensures
            (r.command@, strs(r.args@), strs(r.pre_checks@)) == default_parts(*self),
            r.env_vars@.len() == 0,
    {
        let (program, arg, pre) = match self {
            Command::Format => ("biome", "format", ""),
            Command::Check => ("biome", "check", ""),
            Command::Build => ("tsup", "", "check"),
            Command::Test => ("vitest", "", "check"),
            Command::Release => ("release-it", "", "build"),
        };
        CommandConfig {
            command: program.to_owned(),
            args: one(arg),
            pre_checks: one(pre),
            env_vars: Vec::new(),
        }
    }
}

/// Parsing a command's name gives the command back.
pub proof fn law_name_round_trip(c: Command)
    ensures
        command_named(command_name(c)) == Some(c),
{
    reveal_strlit("format");
    reveal_strlit("check");
    reveal_strlit("build");
    reveal_strlit("test");
    reveal_strlit("release");
    assert("check"@[0] != "format"@[0]);
    assert("build"@[0] != "format"@[0] && "build"@[0] != "check"@[0]);
    assert("test"@[0] != "format"@[0] && "test"@[0] != "check"@[0] && "test"@[0] != "build"@[0]);
    assert("release"@[0] != "format"@[0] && "release"@[0] != "check"@[0] && "release"@[0]
        != "build"@[0] && "release"@[0] != "test"@[0]);
}

/// The entries of `ss` that are not blank, in order.
pub open spec fn nonblank(ss: Seq<Seq<char>>) -> Seq<Seq<char>>
    decreases ss.len(),
{
    if ss.len() == 0 {
        Seq::empty()
    } else if trims_to_empty(ss.last()) {
        nonblank(ss.drop_last())
    } else {
        nonblank(ss.drop_last()).push(ss.last())
    }
}

/// The non-blank entries of `v`, copied.
fn nonblank_exec(v: &Vec<String>) -> (r: Vec<String>)
    ensures
        strs(r@) == nonblank(strs(v@)),
{
    let mut r: Vec<String> = Vec::new();
    let mut i: usize = 0;
    while i < v.len()
        invariant
            i <= v@.len(),
            strs(r@) == nonblank(strs(v@).subrange(0, i as int)),
        decreases v@.len() - i,
    {
        let ghost pre = strs(v@).subrange(0, i as int);
        assert(strs(v@).subrange(0, i + 1).drop_last() =~= pre);
        if !trims_to_empty_exec(&chars_of(v[i].as_str())) {
            let ghost before = r@;
            let c = v[i].clone();
            r.push(c);
            proof {
                lemma_strs_push(before, c);
            }
            assert(strs(r@) =~= nonblank(pre).push(v@[i as int]@));
        }
        i = i + 1;
    }
    assert(strs(v@).subrange(0, v@.len() as int) =~= strs(v@));
    r
}

/// What the configuration file says for a command replaces the default
/// field by field: a non-blank program, the non-blank arguments and
/// pre-checks when there are any; its environment variables are added to
/// the default ones, overriding those of the same name.
pub open spec fn merged_fields(default: CommandConfig, file: CommandConfig) -> (Seq<char>, Seq<Seq<char>>, Seq<Seq<char>>, Seq<(Seq<char>, Seq<char>)>) {
    (
        if trims_to_empty(file.command@) {
            default.command@
        } else {
            file.command@
        },
        if nonblank(strs(file.args@)).len() > 0 {
            nonblank(strs(file.args@))
        } else {
            strs(default.args@)
        },
        if nonblank(strs(file.pre_checks@)).len() > 0 {
            nonblank(strs(file.pre_checks@))
        } else {
            strs(default.pre_checks@)
        },
        pairs(default.env_vars@) + pairs(file.env_vars@),
    )
}

/// The fields of a configuration as plain values.
pub open spec fn config_fields(c: CommandConfig) -> (Seq<char>, Seq<Seq<char>>, Seq<Seq<char>>, Seq<(Seq<char>, Seq<char>)>) {
    (c.command@, strs(c.args@), strs(c.pre_checks@), pairs(c.env_vars@))
}

/// The configuration of the tool: command configurations by name, a later
/// entry overriding an earlier one with the same name.
#[derive(Debug)]
pub struct Config {
    pub commands: Vec<(String, CommandConfig)>,
}

/// The configuration that `cmds` holds for `name`: its last entry of
/// that name.
pub open spec fn lookup_command(cmds: Seq<(String, CommandConfig)>, name: Seq<char>) -> Option<CommandConfig>
    decreases cmds.len(),
{
    if cmds.len() == 0 {
        None
    } else if cmds.last().0@ == name {
        Some(cmds.last().1)
    } else {
        lookup_command(cmds.drop_last(), name)
    }
}

impl Config {
    fn find(&self, name: &str) -> (r: Option<&CommandConfig>)
        ensures
            match lookup_command(self.commands@, name@) {
                None => r is None,
                Some(c) => r == Some(&c),
            },
    {
        let key = name.to_owned();
        let mut i = self.commands.len();
        assert(self.commands@.subrange(0, i as int) =~= self.commands@);
        while i > 0
            invariant
                i <= self.commands@.len(),
                key@ == name@,
                lookup_command(self.commands@.subrange(0, i as int), name@) == lookup_command(
                    self.commands@,
                    name@,
                ),
            decreases i,
        {
            let ghost pre = self.commands@.subrange(0, i as int);
            assert(pre.drop_last() =~= self.commands@.subrange(0, i - 1));
            if self.commands[i - 1].0 == key {
                return Some(&self.commands[i - 1].1);
            }
            i = i - 1;
        }
        None
    }

    /// The configuration of command `command_name`: the default, with what
    /// the configuration file says for that command merged in.
    pub fn merge(&self, default: &CommandConfig, command_name: &str) -> (r: CommandConfig)
        ensures
            match lookup_command(self.commands@, command_name@) {
                None => config_fields(r) == config_fields(*default),
                Some(file) => config_fields(r) == merged_fields(*default, file),
            },
    {
        match self.find(command_name) {
            None => default.duplicate(),
            Some(file) => {
                let command = if !trims_to_empty_exec(&chars_of(file.command.as_str())) {
                    file.command.clone()
                } else {
                    default.command.clone()
                };
                let file_args = nonblank_exec(&file.args);
                let args = if file_args.len() > 0 {
                    file_args
                } else {
                    copy_strings(&default.args)
                };
                let file_checks = nonblank_exec(&file.pre_checks);
                let pre_checks = if file_checks.len() > 0 {
                    file_checks
                } else {
                    copy_strings(&default.pre_checks)
                };
                let env_vars = concat_pairs(&default.env_vars, &file.env_vars);
                CommandConfig { command, args, pre_checks, env_vars }
            },
        }
    }
}

/// The environment of a merged configuration maps each variable to the
/// file's value where the file sets it, and to the default's otherwise.
pub proof fn law_env_file_overrides(a: Seq<(Seq<char>, Seq<char>)>, b: Seq<(Seq<char>, Seq<char>)>)
    ensures
        map_of(a + b) == map_of(a).union_prefer_right(map_of(b)),
    decreases b.len(),
{
    if b.len() == 0 {
        assert(a + b =~= a);
        assert(map_of(a).union_prefer_right(map_of(b)) =~= map_of(a));
    } else {
        law_env_file_overrides(a, b.drop_last());
        assert((a + b).drop_last() =~= a + b.drop_last());
        assert((a + b).last() == b.last());
        assert(map_of(a + b) =~= map_of(a).union_prefer_right(map_of(b)));
    }
}

/// Merging into a configuration that holds nothing for the command gives
/// the default back.
pub proof fn law_merge_without_entry(cmds: Seq<(String, CommandConfig)>, name: Seq<char>)
    requires
        forall|i: int| 0 <= i < cmds.len() ==> #[trigger] cmds[i].0@ != name,
    ensures
        lookup_command(cmds, name) is None,
    decreases cmds.len(),
{
    if cmds.len() > 0 {
        assert(cmds.last() == cmds[cmds.len() - 1]);
        let t = cmds.drop_last();
        assert forall|i: int| 0 <= i < t.len() implies #[trigger] t[i].0@ != name by {
            assert(t[i] == cmds[i]);
        }
        law_merge_without_entry(t, name);
    }
}


/// How a predefined command runs once its configuration is merged: `npx`
/// in `work_dir` with the command, its arguments and `extra_args`, and its
/// environment when it has one.
pub fn invocation(work_dir: &str, merged: &CommandConfig, extra_args: Vec<String>) -> (r: crate::exec::Config)
    ensures
        r.work_dir@ == work_dir@,
        r.program@ == "npx"@,
        strs(r.args@) == seq![merged.command@] + strs(merged.args@) + strs(extra_args@),
        match r.env_vars {
            None => merged.env_vars@.len() == 0,
            Some(e) => merged.env_vars@.len() > 0 && pairs(e@) == pairs(merged.env_vars@),
        },
{
    let mut args: Vec<String> = Vec::new();
    args.push(merged.command.clone());
    assert(strs(args@) =~= seq![merged.command@]);
    let mut i: usize = 0;
    while i < merged.args.len()
        invariant
            i <= merged.args@.len(),
            strs(args@) == seq![merged.command@] + strs(merged.args@).take(i as int),
        decreases merged.args@.len() - i,
    {
        let ghost before = args@;
        args.push(merged.args[i].clone());
        proof {
            lemma_strs_push(before, merged.args@[i as int]);
        }
        assert(strs(merged.args@).take(i + 1) =~= strs(merged.args@).take(i as int).push(merged.args@[i as int]@));
        assert(strs(args@) =~= seq![merged.command@] + strs(merged.args@).take(i + 1));
        i = i + 1;
    }
    assert(strs(merged.args@).take(merged.args@.len() as int) =~= strs(merged.args@));
    let ghost base = strs(args@);
    let mut k: usize = 0;
    while k < extra_args.len()
        invariant
            k <= extra_args@.len(),
            strs(args@) == base + strs(extra_args@).take(k as int),
        decreases extra_args@.len() - k,
    {
        let ghost before = args@;
        args.push(extra_args[k].clone());
        proof {
            lemma_strs_push(before, extra_args@[k as int]);
        }
        assert(strs(extra_args@).take(k + 1) =~= strs(extra_args@).take(k as int).push(extra_args@[k as int]@));
        assert(strs(args@) =~= base + strs(extra_args@).take(k + 1));
        k = k + 1;
    }
    assert(strs(extra_args@).take(extra_args@.len() as int) =~= strs(extra_args@));
    let env_vars = if merged.env_vars.len() == 0 {
        None
    } else {
        let none: Vec<(String, String)> = Vec::new();
        let copied = concat_pairs(&merged.env_vars, &none);
        assert(pairs(none@) =~= Seq::<(Seq<char>, Seq<char>)>::empty());
        assert(pairs(copied@) =~= pairs(merged.env_vars@));
        Some(copied)
    };
    crate::exec::npx_config(work_dir, args, env_vars)
}

} // verus!
