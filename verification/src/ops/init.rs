//! Initialising a package in an existing directory, decided before
//! anything is written.

use vstd::prelude::*;
use vstd::string::*;

use crate::core_package::{PackageOptions, VcsConfig};
use crate::integration::{lemma_strs_push, strs};
use crate::ops::new::{
    existing_manifest_action, package_manifest, package_manifest_fits, pattern_dir, root_manifest,
    root_manifest_fits, source_files, source_files_fit, workspace_dir, ExistingManifest, PackageManifest,
    RootManifest,
};

verus! {

/// Whether the JSON text `text` parses, and then whether its value has a
/// `workspaces` field; or the parser's message.
pub uninterp spec fn json_declares_workspaces(text: Seq<char>) -> core::result::Result<bool, Seq<char>>;

/// Parses `text` with `serde_json::from_str` into a `serde_json::Value`
/// and asks the value for its `workspaces` field with `Value::get`
/// (which finds nothing in a value that is not an object); on a parse
/// failure it gives the parser's message. The answer depends on the text
/// alone and is named, not restated.
#[verifier::external_body]
fn manifest_declares_workspaces(text: &str) -> (r: core::result::Result<bool, String>)
    ensures
        match r {
            Ok(b) => json_declares_workspaces(text@) == Ok::<bool, Seq<char>>(b),
            Err(m) => json_declares_workspaces(text@) == Err::<bool, Seq<char>>(m@),
        },
{
    match serde_json::from_str::<serde_json::Value>(text) {
        Ok(json) => Ok(json.get("workspaces").is_some()),
        Err(e) => Err(e.to_string()),
    }
}

/// What the disk holds where a package's manifest goes: nothing, or a
/// manifest, with its text when it was read (it is read only when a
/// workspace is initialised).
#[derive(Debug, Clone)]
pub enum FoundManifest {
    Absent,
    Present(Option<String>),
}

/// What initialising writes: the first manifest, the directories that the
/// workspace patterns ask for, for a package that is not a workspace its
/// own manifest (which replaces the first) with its files, and whether a
/// git repository is wanted (made where none is).
#[derive(Debug, Clone)]
pub struct InitWrite {
    pub root: RootManifest,
    pub workspace_dirs: Vec<String>,
    pub package: Option<(PackageManifest, Vec<(String, String)>)>,
    pub git: bool,
}

/// What initialising does.
#[derive(Debug, Clone)]
pub enum InitOutcome {
    /// The workspace is already set up: warn and stop.
    AlreadyWorkspace,
    /// Write what the plan holds.
    Write(InitWrite),
}

/// The plan of initialising a package: whether its directory is made
/// first, and what follows.
#[derive(Debug, Clone)]
pub struct InitPlan {
    pub create_dir: bool,
    pub outcome: InitOutcome,
}

/// The directories that the workspace patterns `patterns` ask for under
/// `path`, in order (see `pattern_dir`).
pub open spec fn pattern_dirs(path: Seq<char>, patterns: Seq<Seq<char>>) -> Seq<Seq<char>>
    decreases patterns.len(),
{
    if patterns.len() == 0 {
        Seq::empty()
    } else {
        let before = pattern_dirs(path, patterns.drop_last());
        match pattern_dir(path, patterns.last()) {
            Some(d) => before.push(d),
            None => before,
        }
    }
}

/// `w` is what initialising a package with options `opts` writes.
pub open spec fn init_write_fits(opts: PackageOptions, w: InitWrite) -> bool {
    &&& root_manifest_fits(opts, w.root)
    &&& strs(w.workspace_dirs@) == match w.root.workspaces {
        Some(p) => pattern_dirs(opts.path@, strs(p@)),
        None => Seq::empty(),
    }
    &&& (opts.workspace ==> w.package is None)
    &&& (!opts.workspace ==> (w.package matches Some((m, files)) && package_manifest_fits(opts, m)
        && source_files_fit(opts, files)))
    &&& w.git == (opts.vcs == VcsConfig::Enabled)
}

/// The message when a manifest is already there.
pub open spec fn manifest_exists_message() -> Seq<char> {
    "package.json already exists"@
}

/// `r` is what initialising a package with options `opts` gives, from
/// whether its directory exists and what manifest is there: with none,
/// the plan writes the package; with a manifest that declares
/// `workspaces` when a workspace is initialised, it warns and stops;
/// with any other manifest, it is refused.
pub open spec fn init_agrees(
    opts: PackageOptions,
    dir_exists: bool,
    found: FoundManifest,
    r: core::result::Result<InitPlan, String>,
) -> bool {
    match found {
        FoundManifest::Absent => (r matches Ok(plan) && plan.create_dir == !dir_exists && (
        plan.outcome matches InitOutcome::Write(w) && init_write_fits(opts, w))),
        FoundManifest::Present(text) => if opts.workspace && text is Some && json_declares_workspaces(
            text->Some_0@,
        ) == Ok::<bool, Seq<char>>(true) {
            r matches Ok(plan) && plan.create_dir == !dir_exists && plan.outcome is AlreadyWorkspace
        } else {
            r matches Err(m) && m@ == manifest_exists_message()
        },
    }
}

/// The directories that the workspace patterns ask for under `path`.
fn workspace_dirs(path: &str, patterns: &Vec<String>) -> (r: Vec<String>)
    ensures
        strs(r@) == pattern_dirs(path@, strs(patterns@)),
{
    let mut r: Vec<String> = Vec::new();
    let mut i: usize = 0;
    while i < patterns.len()
        invariant
            i <= patterns@.len(),
            strs(r@) == pattern_dirs(path@, strs(patterns@).take(i as int)),
        decreases patterns@.len() - i,
    {
        let ghost pre = strs(patterns@).take(i as int);
        let ghost next = strs(patterns@).take(i + 1);
        assert(next.drop_last() =~= pre);
        assert(next.last() == patterns@[i as int]@);
        match workspace_dir(path, patterns[i].as_str()) {
            Some(d) => {
                let ghost before = r@;
                r.push(d);
                proof {
                    lemma_strs_push(before, d);
                }
            },
            None => {},
        }
        i = i + 1;
    }
    assert(strs(patterns@).take(patterns@.len() as int) =~= strs(patterns@));
    r
}

/// What setting up a package with options `opts` writes (see
/// `init_write_fits`).
pub fn package_writes(opts: &PackageOptions) -> (r: InitWrite)
    ensures
        init_write_fits(*opts, r),
{
    let root = root_manifest(opts);
    let workspace_dirs = match &root.workspaces {
        Some(p) => workspace_dirs(opts.path.as_str(), p),
        None => {
            let none: Vec<String> = Vec::new();
            assert(strs(none@) =~= Seq::<Seq<char>>::empty());
            none
        },
    };
    let package = if opts.workspace {
        None
    } else {
        Some((package_manifest(opts), source_files(opts)))
    };
    let git = opts.vcs == VcsConfig::Enabled;
    InitWrite { root, workspace_dirs, package, git }
}

/// Decides the initialisation of a package with options `opts` from what
/// the disk holds (see `init_agrees`): the manifest's text, when given, is
/// parsed to see whether it declares `workspaces`.
pub fn init_plan(opts: &PackageOptions, dir_exists: bool, found: FoundManifest) -> (r: core::result::Result<InitPlan, String>)
    ensures
        init_agrees(*opts, dir_exists, found, r),
{
    match found {
        FoundManifest::Present(text) => {
            let declares = if opts.workspace {
                match &text {
                    Some(t) => match manifest_declares_workspaces(t.as_str()) {
                        Ok(b) => b,
                        Err(_) => false,
                    },
                    None => false,
                }
            } else {
                false
            };
            return match existing_manifest_action(opts.workspace, declares) {
                ExistingManifest::AlreadyWorkspace => Ok(InitPlan {
                    create_dir: !dir_exists,
                    outcome: InitOutcome::AlreadyWorkspace,
                }),
                ExistingManifest::Refused => Err(String::from_str("package.json already exists")),
            };
        },
        FoundManifest::Absent => {},
    }
    Ok(InitPlan { create_dir: !dir_exists, outcome: InitOutcome::Write(package_writes(opts)) })
}

} // verus!
