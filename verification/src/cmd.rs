//! The description of an external command to run, and how one
//! description overrides another.

pub mod project;

use vstd::prelude::*;
use vstd::string::*;

use crate::fs_query::path_is_dir;
use crate::integration::{pairs, strs};
use crate::integration::law_env_file_overrides;
use crate::job::Job;
use crate::ops::replace::map_of;
use crate::text::append_str;

verus! {

/// What to run, how, and which jobs to run first.
#[derive(Debug, Clone)]
pub struct CommandContext {
    pub executable: String,
    pub subcommand: String,
    pub args: Vec<String>,
    /// Environment variables, a later pair overriding an earlier one.
    pub envs: Vec<(String, String)>,
    pub working_dir: String,
    pub steps: Vec<Job>,
}

/// Calls `which::which` on `name`: the path of the executable that `PATH`
/// finds for it, or the crate's message. The answer depends on the
/// environment and the disk, so nothing is promised of it.
#[verifier::external_body]
fn which_path(name: &str) -> Result<String, String> {
    match which::which(name) {
        Ok(p) => Ok(p.to_string_lossy().into_owned()),
        Err(e) => Err(e.to_string()),
    }
}

/// Calls `std::path::Path::canonicalize` on `path`: the absolute path with
/// links resolved, or the system's message. The answer depends on the disk.
#[verifier::external_body]
fn canonical_path(path: &str) -> Result<String, String> {
    match std::path::Path::new(path).canonicalize() {
        Ok(p) => Ok(p.to_string_lossy().into_owned()),
        Err(e) => Err(e.to_string()),
    }
}

/// The message for an executable that is not found.
pub open spec fn not_found_message(name: Seq<char>, reason: Seq<char>) -> Seq<char> {
    "Executable '"@ + name + "' not found in PATH: "@ + reason
}

/// Judges the lookup of executable `name`: its path when found, otherwise
/// a message naming it.
pub fn executable_verdict(name: &str, lookup: Result<String, String>) -> (r: Result<String, String>)
    ensures
        match lookup {
            Ok(p) => r == Ok::<String, String>(p),
            Err(e) => (r matches Err(m) && m@ == not_found_message(name@, e@)),
        },
{
    match lookup {
        Ok(p) => Ok(p),
        Err(e) => {
            let mut m = String::from_str("Executable '");
            append_str(&mut m, name);
            append_str(&mut m, "' not found in PATH: ");
            append_str(&mut m, e.as_str());
            Err(m)
        },
    }
}

/// The path of the executable `name` found on `PATH`, or why there is none.
pub fn validate_executable(name: &str) -> (r: Result<String, String>)
    ensures
        r matches Err(m) ==> exists|e: Seq<char>| m@ == not_found_message(name@, e),
{
    executable_verdict(name, which_path(name))
}

/// Judges a working directory from its canonical form and whether that is
/// a directory.
pub fn working_dir_verdict(canonical: Result<String, String>, is_dir: bool) -> (r: Result<String, String>)
    ensures
        match canonical {
            Err(e) => r == Err::<String, String>(e),
            Ok(p) => if is_dir {
                r == Ok::<String, String>(p)
            } else {
                (r matches Err(m) && m@ == "The path "@ + p@ + " is not a directory."@)
            },
        },
{
    match canonical {
        Err(e) => Err(e),
        Ok(p) => {
            if is_dir {
                Ok(p)
            } else {
                let mut m = String::from_str("The path ");
                append_str(&mut m, p.as_str());
                append_str(&mut m, " is not a directory.");
                Err(m)
            }
        },
    }
}

/// The canonical form of the directory `path`, or why it is not one:
/// whatever the disk answered, the result is the verdict of
/// `working_dir_verdict` on some answers.
pub fn validate_working_dir(path: &str) -> (r: Result<String, String>)
    ensures
        exists|canonical: core::result::Result<Seq<char>, Seq<char>>, is_dir: bool|
            #[trigger] working_dir_outcome(canonical, is_dir) == match r {
                Ok(q) => Ok(q@),
                Err(m) => Err(m@),
            },
{
    match canonical_path(path) {
        Err(e) => {
            let ghost ev = e@;
            let r = working_dir_verdict(Err(e), false);
            assert(working_dir_outcome(Err(ev), false) == match r {
                Ok(q) => Ok(q@),
                Err(m) => Err::<Seq<char>, Seq<char>>(m@),
            });
            r
        },
        Ok(p) => {
            let ghost pv = p@;
            let d = path_is_dir(p.as_str());
            let r = working_dir_verdict(Ok(p), d);
            assert(working_dir_outcome(Ok(pv), d) == match r {
                Ok(q) => Ok::<Seq<char>, Seq<char>>(q@),
                Err(m) => Err(m@),
            });
            r
        },
    }
}

/// What `working_dir_verdict` gives, as text: the canonical path when it
/// is a directory, else the failure's message.
pub open spec fn working_dir_outcome(canonical: core::result::Result<Seq<char>, Seq<char>>, is_dir: bool) -> core::result::Result<Seq<char>, Seq<char>> {
    match canonical {
        Err(e) => Err(e),
        Ok(p) => if is_dir {
            Ok(p)
        } else {
            Err("The path "@ + p + " is not a directory."@)
        },
    }
}

/// The fields of a context as plain values.
pub open spec fn context_fields(c: CommandContext) -> (Seq<char>, Seq<char>, Seq<Seq<char>>, Seq<(Seq<char>, Seq<char>)>, Seq<char>, Seq<Job>) {
    (c.executable@, c.subcommand@, strs(c.args@), pairs(c.envs@), c.working_dir@, c.steps@)
}

/// `base` overridden by `other`, given what the executable and the
/// working directory of `other` resolved to: each non-empty field of
/// `other` replaces the one of `base`, except that arguments and
/// environment variables are added after those of `base`.
pub open spec fn merged_context(base: CommandContext, other: CommandContext, exe: Seq<char>, dir: Seq<char>) -> (Seq<char>, Seq<char>, Seq<Seq<char>>, Seq<(Seq<char>, Seq<char>)>, Seq<char>, Seq<Job>) {
    (
        if other.executable@.len() > 0 {
            exe
        } else {
            base.executable@
        },
        if other.subcommand@.len() > 0 {
            other.subcommand@
        } else {
            base.subcommand@
        },
        strs(base.args@) + strs(other.args@),
        pairs(base.envs@) + pairs(other.envs@),
        if other.working_dir@.len() > 0 {
            dir
        } else {
            base.working_dir@
        },
        if other.steps@.len() > 0 {
            other.steps@
        } else {
            base.steps@
        },
    )
}

impl CommandContext {
    /// Overrides this context with `other` (see `merged_context`), given
    /// what the executable and the working directory of `other` resolved
    /// to; a failed resolution of a field that is used is returned and
    /// stops the merge there.
    pub fn merge_resolved(&mut self, other: CommandContext, exe: Result<String, String>, dir: Result<String, String>) -> (r: Result<(), String>)
        ensures
            other.executable@.len() > 0 && exe is Err ==> r == Err::<(), String>(exe->Err_0),
            !(other.executable@.len() > 0 && exe is Err) && other.working_dir@.len() > 0 && dir is Err ==> r
                == Err::<(), String>(dir->Err_0),
            r is Ok ==> context_fields(*final(self)) == merged_context(
                *old(self),
                other,
                if exe is Ok { exe->Ok_0@ } else { Seq::empty() },
                if dir is Ok { dir->Ok_0@ } else { Seq::empty() },
            ),
            r is Ok <==> (!(other.executable@.len() > 0 && exe is Err) && !(other.working_dir@.len() > 0 && dir is Err)),
    {
        let other_exe_set = !other.executable.as_str().is_empty();
        if other_exe_set {
            match exe {
                Ok(p) => self.executable = p,
                Err(e) => return Err(e),
            }
        }
        if !other.subcommand.as_str().is_empty() {
            self.subcommand = other.subcommand;
        }
        let mut other_args = other.args;
        let ghost a = strs(self.args@);
        let ghost b = strs(other_args@);
        self.args.append(&mut other_args);
        assert(strs(self.args@) =~= a + b);
        let mut other_envs = other.envs;
        let ghost e1 = pairs(self.envs@);
        let ghost e2 = pairs(other_envs@);
        self.envs.append(&mut other_envs);
        assert(pairs(self.envs@) =~= e1 + e2);
        if !other.working_dir.as_str().is_empty() {
            match dir {
                Ok(p) => self.working_dir = p,
                Err(e) => return Err(e),
            }
        }
        if other.steps.len() > 0 {
            self.steps = other.steps;
        }
        Ok(())
    }

    /// Overrides this context with `other`: the executable of `other` is
    /// looked up on `PATH` and its working directory made canonical, each
    /// only when given; otherwise as `merge_resolved`.
    pub fn merge(&mut self, other: CommandContext) -> (r: Result<(), String>)
        ensures
            other.executable@.len() == 0 && other.working_dir@.len() == 0 ==> r is Ok,
            r is Ok ==> exists|exe: Seq<char>, dir: Seq<char>|
                #[trigger] merged_context(*old(self), other, exe, dir) == context_fields(*final(self)),
            r is Ok ==> map_of(pairs(final(self).envs@)) == map_of(pairs(old(self).envs@)).union_prefer_right(
                map_of(pairs(other.envs@)),
            ),
            r matches Err(m) ==> (other.executable@.len() > 0 && exists|e: Seq<char>|
                m@ == #[trigger] not_found_message(other.executable@, e)) || (other.working_dir@.len() > 0
                && exists|canonical: core::result::Result<Seq<char>, Seq<char>>, is_dir: bool|
                #[trigger] working_dir_outcome(canonical, is_dir) == Err::<Seq<char>, Seq<char>>(m@)),
    {
        let exe = if !other.executable.as_str().is_empty() {
            validate_executable(other.executable.as_str())
        } else {
            Ok(String::new())
        };
        let dir = if !other.working_dir.as_str().is_empty() {
            validate_working_dir(other.working_dir.as_str())
        } else {
            Ok(String::new())
        };
        let ghost base = *self;
        let ghost given = other;
        let ghost ev = exe;
        let ghost dv = dir;
        let r = self.merge_resolved(other, exe, dir);
        proof {
            if r is Err {
                if given.executable@.len() > 0 && ev is Err {
                    assert(r->Err_0 == ev->Err_0);
                } else {
                    assert(r->Err_0 == dv->Err_0);
                }
            }
            if r is Ok {
                let e = if exe is Ok { exe->Ok_0@ } else { Seq::empty() };
                let d = if dir is Ok { dir->Ok_0@ } else { Seq::empty() };
                assert(merged_context(base, given, e, d) == context_fields(*self));
                law_env_file_overrides(pairs(base.envs@), pairs(given.envs@));
            }
        }
        r
    }
}


/// The texts of `v`, in order.
pub open spec fn str_texts(v: Seq<&str>) -> Seq<Seq<char>> {
    Seq::new(v.len(), |i: int| v[i]@)
}

/// A command to run `executable` with `subcommand` and `args`, in
/// `working_dir` when one is given and in `current_dir` otherwise, after
/// `steps`; with no environment of its own.
pub fn from_default(
    executable: &str,
    subcommand: &str,
    args: &[&str],
    working_dir: Option<&str>,
    current_dir: &str,
    steps: Vec<Job>,
) -> (r: CommandContext)
    ensures
        r.executable@ == executable@,
        r.subcommand@ == subcommand@,
        strs(r.args@) == str_texts(args@),
        r.envs@.len() == 0,
        r.working_dir@ == match working_dir {
            Some(d) => d@,
            None => current_dir@,
        },
        r.steps@ == steps@,
{
    let mut a: Vec<String> = Vec::new();
    let mut i: usize = 0;
    while i < args.len()
        invariant
            i <= args@.len(),
            strs(a@) == str_texts(args@).take(i as int),
        decreases args@.len() - i,
    {
        let ghost before = a@;
        let w: &str = args[i];
        let s = w.to_owned();
        assert(s@ == args@[i as int]@);
        a.push(s);
        assert(strs(a@) =~= strs(before).push(s@));
        assert(str_texts(args@).take(i + 1) =~= str_texts(args@).take(i as int).push(args@[i as int]@));
        i = i + 1;
    }
    assert(str_texts(args@).take(args@.len() as int) =~= str_texts(args@));
    CommandContext {
        executable: executable.to_owned(),
        subcommand: subcommand.to_owned(),
        args: a,
        envs: Vec::new(),
        working_dir: match working_dir {
            Some(d) => d.to_owned(),
            None => current_dir.to_owned(),
        },
        steps,
    }
}

/// The words joined with single spaces.
pub open spec fn spaced(words: Seq<Seq<char>>) -> Seq<char>
    decreases words.len(),
{
    if words.len() == 0 {
        Seq::empty()
    } else if words.len() == 1 {
        words[0]
    } else {
        spaced(words.drop_last()) + " "@ + words.last()
    }
}

/// What is shown when the command of `ctx` runs: the executable, the
/// subcommand and the arguments, separated by spaces.
pub fn run_description(ctx: &CommandContext) -> (r: String)
    ensures
        r@ == ctx.executable@ + " "@ + ctx.subcommand@ + " "@ + spaced(strs(ctx.args@)),
{
    let mut joined = String::new();
    let mut i: usize = 0;
    while i < ctx.args.len()
        invariant
            i <= ctx.args@.len(),
            joined@ == spaced(strs(ctx.args@).take(i as int)),
        decreases ctx.args@.len() - i,
    {
        let ghost t = strs(ctx.args@).take(i + 1);
        assert(t.drop_last() =~= strs(ctx.args@).take(i as int));
        if i > 0 {
            joined.append(" ");
        } else {
            assert(strs(ctx.args@).take(i as int) =~= Seq::<Seq<char>>::empty());
        }
        joined.append(ctx.args[i].as_str());
        i = i + 1;
    }
    assert(strs(ctx.args@).take(ctx.args@.len() as int) =~= strs(ctx.args@));
    let mut r = ctx.executable.clone();
    r.append(" ");
    r.append(ctx.subcommand.as_str());
    r.append(" ");
    r.append(joined.as_str());
    r
}

/// The verdict on a finished command: the exit code to fail with (1 when
/// the command gave none) unless it succeeded.
pub fn exit_verdict(success: bool, code: Option<i32>) -> (r: Result<(), i32>)
    ensures
        success ==> r is Ok,
        !success ==> r == Err::<(), i32>(match code {
            Some(c) => c,
            None => 1,
        }),
{
    if success {
        Ok(())
    } else {
        Err(match code {
            Some(c) => c,
            None => 1,
        })
    }
}

} // verus!
