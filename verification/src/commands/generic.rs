//! The common commands `check`, `build` and `test`: the arguments each
//! hands its tool, the words it shows while running, and when a run is a
//! failure.

use vstd::prelude::*;
use vstd::string::*;

use crate::error::Error;
use crate::text::{decimal, decimal_string, texts};
use crate::Result;

verus! {

/// What a common command asks of its tool: the arguments, and the words
/// that say what it works on.
pub struct Request {
    pub args: Vec<String>,
    pub scope: String,
}

/// What `check` works on: all files, or the number of paths given.
pub open spec fn check_scope(n: nat) -> Seq<char> {
    if n == 0 {
        "all files"@
    } else {
        decimal(n) + " paths"@
    }
}

/// The request of `check` on `paths`: the paths themselves as arguments.
pub fn check_request(paths: &Vec<String>) -> (r: Request)
    ensures
        texts(r.args@) == texts(paths@),
        r.scope@ == check_scope(paths@.len()),
{
    let mut args: Vec<String> = Vec::new();
    let mut i: usize = 0;
    while i < paths.len()
        invariant
            i <= paths@.len(),
            texts(args@) == texts(paths@).take(i as int),
        decreases paths@.len() - i,
    {
        let ghost before = texts(args@);
        let p = paths[i].clone();
        args.push(p);
        assert(texts(args@) =~= before.push(paths@[i as int]@));
        assert(texts(paths@).take(i + 1) =~= texts(paths@).take(i as int).push(paths@[i as int]@));
        i = i + 1;
    }
    assert(texts(paths@).take(paths@.len() as int) =~= texts(paths@));
    let scope = if paths.len() == 0 {
        String::from_str("all files")
    } else {
        let mut s = decimal_string(paths.len() as u64);
        s.append(" paths");
        s
    };
    Request { args, scope }
}

/// The request of `build`: `--release` in release mode, and the mode named.
pub fn build_request(release: bool) -> (r: Request)
    ensures
        texts(r.args@) == (if release {
            seq!["--release"@]
        } else {
            Seq::<Seq<char>>::empty()
        }),
        r.scope@ == (if release {
            "in release mode"@
        } else {
            "in debug mode"@
        }),
{
    let mut args: Vec<String> = Vec::new();
    if release {
        args.push(String::from_str("--release"));
    }
    assert(texts(args@) =~= (if release {
        seq!["--release"@]
    } else {
        Seq::<Seq<char>>::empty()
    }));
    let scope = if release {
        String::from_str("in release mode")
    } else {
        String::from_str("in debug mode")
    };
    Request { args, scope }
}

/// The request of `test`: the pattern as the one argument unless it is
/// empty, and the tests it selects named.
pub fn test_request(pattern: &str) -> (r: Request)
    ensures
        texts(r.args@) == (if pattern@.len() == 0 {
            Seq::<Seq<char>>::empty()
        } else {
            seq![pattern@]
        }),
        r.scope@ == (if pattern@.len() == 0 {
            "all tests"@
        } else {
            "tests matching '"@ + pattern@ + "'"@
        }),
{
    let mut args: Vec<String> = Vec::new();
    let scope = if pattern.unicode_len() == 0 {
        String::from_str("all tests")
    } else {
        args.push(pattern.to_owned());
        let mut s = String::from_str("tests matching '");
        s.append(pattern);
        s.append("'");
        s
    };
    assert(texts(args@) =~= (if pattern@.len() == 0 {
        Seq::<Seq<char>>::empty()
    } else {
        seq![pattern@]
    }));
    Request { args, scope }
}

/// The verdict on a finished run of the tool of `command`: a failure,
/// with the exit code when there was one, unless it succeeded.
pub fn run_verdict(command: &str, success: bool, code: Option<i32>) -> (r: Result<()>)
    ensures
        success ==> r is Ok,
        !success ==> (r matches Err(Error::CommandFailed { command: c, code: k }) && c@ == command@
            && k == code),
{
    if success {
        Ok(())
    } else {
        Err(Error::CommandFailed { command: command.to_owned(), code })
    }
}

} // verus!
