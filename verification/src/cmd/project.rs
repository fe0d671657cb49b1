//! Scaffolding a package from the embedded template, as the workflow
//! commands `new` and `init` do it: the checks on the target, the
//! placeholders filled in, and what becomes of each template entry.

use vstd::prelude::*;
use vstd::string::*;

use crate::fs_query::{dir_has_entries, path_exists};
use crate::ops::replace::{rendered, replace_placeholders, Replacements};
use crate::ops::validate::{registry_name_failure, registry_name_message, validate_pkg_name};
use crate::paths::{file_name, file_name_of, join, join_path};
use crate::project::{
    action_view, entry_action, entry_action_spec, ArchiveEntry, EntryAction, EntryKind, ProjectKind, ScaffoldPlan,
};

verus! {

/// The line that starts the scaffolding of the package at `path`.
pub fn project_status(path: &str, kind: ProjectKind) -> (r: String)
    ensures
        r@ == (if kind == ProjectKind::New {
            "Creating `"@
        } else {
            "Initializing `"@
        }) + path@ + "` package"@,
{
    let mut r = String::from_str(if kind == ProjectKind::New {
        "Creating `"
    } else {
        "Initializing `"
    });
    r.append(path);
    r.append("` package");
    r
}

/// Checks that the last component of `path` is a valid package name.
pub fn validate_project_name(path: &str) -> (r: Result<(), String>)
    ensures
        match file_name_of(path@) {
            None => (r matches Err(m) && m@ == "Invalid directory name"@),
            Some(n) => (r is Ok <==> registry_name_failure(n) is None) && (r matches Err(m)
                ==> registry_name_failure(n) matches Some(c) && m@ == registry_name_message(c)),
        },
{
    match file_name(path) {
        None => Err(String::from_str("Invalid directory name")),
        Some(n) => validate_pkg_name(n.as_str()),
    }
}

/// The warning shown when initialising in a directory that holds files.
pub fn not_empty_warning() -> (r: String)
    ensures
        r@ == "Directory is not empty; existing files will be preserved."@,
{
    String::from_str("Directory is not empty; existing files will be preserved.")
}

/// The verdict on a directory to initialise a package in, from what its
/// listing gave (whether it has an entry, or the system's message) and
/// whether a manifest is there: a failed listing and a present manifest
/// are refused; otherwise the answer says whether to warn that the
/// directory holds files.
pub fn dir_state_verdict(listing: Result<bool, String>, manifest_exists: bool) -> (r: Result<bool, String>)
    ensures
        match listing {
            Err(m) => r == Err::<bool, String>(m),
            Ok(has) => if manifest_exists {
                (r matches Err(m) && m@ == "package.json manifest already exists in the current directory"@)
            } else {
                r == Ok::<bool, String>(has)
            },
        },
{
    match listing {
        Err(m) => Err(m),
        Ok(has) => {
            if manifest_exists {
                Err(String::from_str("package.json manifest already exists in the current directory"))
            } else {
                Ok(has)
            }
        },
    }
}

/// What `dir_state_verdict` gives, as text.
pub open spec fn dir_state_outcome(listing: core::result::Result<bool, Seq<char>>, manifest_exists: bool) -> core::result::Result<bool, Seq<char>> {
    match listing {
        Err(m) => Err(m),
        Ok(has) => if manifest_exists {
            Err("package.json manifest already exists in the current directory"@)
        } else {
            Ok(has)
        },
    }
}

/// Checks the directory at `path` before a package is initialised in it,
/// asking the disk (see `dir_state_verdict`); whatever it answered, the
/// result is the verdict for some answers.
pub fn validate_dir_state(path: &str) -> (r: Result<bool, String>)
    ensures
        exists|listing: core::result::Result<bool, Seq<char>>, manifest_exists: bool|
            #[trigger] dir_state_outcome(listing, manifest_exists) == match r {
                Ok(b) => Ok(b),
                Err(m) => Err(m@),
            },
{
    let listing = dir_has_entries(path);
    let ghost lv = crate::ops::new::listing_view(listing);
    let manifest = crate::paths::manifest_path(path);
    let present = path_exists(manifest.as_str());
    let r = dir_state_verdict(listing, present);
    assert(dir_state_outcome(lv, present) == match r {
        Ok(b) => Ok(b),
        Err(m) => Err::<bool, Seq<char>>(m@),
    });
    r
}

/// The message for a project directory that cannot be created.
pub fn creation_failure(path: &str, why: &str) -> (r: String)
    ensures
        r@ == "destination `"@ + path@ + "` already exists: "@ + why@
            + "\n\nUse `cargonode init` to initialize in the current directory"@,
{
    let mut r = String::from_str("destination `");
    r.append(path);
    r.append("` already exists: ");
    r.append(why);
    r.append("\n\nUse `cargonode init` to initialize in the current directory");
    r
}

/// The value that stands for `NAME` when scaffolding into `path`: its last
/// component, or the whole path when it has none.
pub open spec fn placeholder_name(path: Seq<char>) -> Seq<char> {
    match file_name_of(path) {
        Some(n) => n,
        None => path,
    }
}

/// The placeholders for scaffolding into `path`: `NAME` is the
/// directory's name.
pub fn prepare_placeholders(path: &str) -> (r: Replacements)
    ensures
        r@ == Map::<Seq<char>, Seq<char>>::empty().insert("NAME"@, placeholder_name(path@)),
{
    let mut rep = Replacements::new();
    match file_name(path) {
        Some(n) => rep.add("NAME", n.as_str()),
        None => rep.add("NAME", path),
    }
    rep
}

/// Decides what becomes of a template entry at `entry_path` with content
/// `raw`, scaffolded into `project_path`: the target is the entry's path
/// joined onto the project's, the content has its placeholders filled in,
/// and `exists` says whether the target file is already there.
pub fn entry_plan(
    project_path: &str,
    kind: ProjectKind,
    entry: EntryKind,
    entry_path: &str,
    raw: &str,
    placeholders: &Replacements,
    exists: bool,
) -> (r: EntryAction)
    ensures
        action_view(r) == entry_action_spec(
            kind,
            entry,
            join_path(project_path@, entry_path@),
            rendered(raw@, placeholders@),
            exists,
        ),
{
    let out = join(project_path, entry_path);
    let content = replace_placeholders(raw, placeholders);
    entry_action(kind, entry, out, content, exists)
}

/// The placeholders for scaffolding into `path`, as a map.
pub open spec fn placeholder_map(path: Seq<char>) -> Map<Seq<char>, Seq<char>> {
    Map::<Seq<char>, Seq<char>>::empty().insert("NAME"@, placeholder_name(path))
}

/// `r` is what the workflow commands give when scaffolding a package of
/// `kind` into `path`, from what checking the directory said (used when
/// initialising) and the template's entries: a directory name that is no
/// package name is refused, then (when initialising) a refused directory;
/// otherwise a new package's directory is made and each entry becomes the
/// action `entry_action_spec` gives it.
pub open spec fn run_agrees(
    path: Seq<char>,
    kind: ProjectKind,
    dir_state: core::result::Result<bool, Seq<char>>,
    entries: Seq<ArchiveEntry>,
    r: Result<ScaffoldPlan, String>,
) -> bool {
    match file_name_of(path) {
        None => (r matches Err(m) && m@ == "Invalid directory name"@),
        Some(n) => match registry_name_failure(n) {
            Some(c) => (r matches Err(m) && m@ == registry_name_message(c)),
            None => if kind == ProjectKind::Init && dir_state is Err {
                r matches Err(m) && m@ == dir_state->Err_0
            } else {
                r matches Ok(plan) && plan.create_dir == (kind == ProjectKind::New)
                    && plan.actions@.len() == entries.len() && forall|i: int|
                    0 <= i < entries.len() ==> action_view(#[trigger] plan.actions@[i]) == entry_action_spec(
                        kind,
                        entries[i].kind,
                        join_path(path, entries[i].path@),
                        rendered(entries[i].raw@, placeholder_map(path)),
                        entries[i].target_exists,
                    )
            },
        },
    }
}

/// Decides the scaffolding that `new` and `init` do (see `run_agrees`):
/// `dir_state` is what `validate_dir_state` said of the directory, and
/// `entries` are those of the template archive.
pub fn run_plan(path: &str, kind: ProjectKind, dir_state: Result<bool, String>, entries: &Vec<ArchiveEntry>) -> (r: Result<ScaffoldPlan, String>)
    ensures
        run_agrees(path@, kind, crate::ops::new::listing_view(dir_state), entries@, r),
{
    match validate_project_name(path) {
        Err(m) => return Err(m),
        Ok(()) => {},
    }
    if kind == ProjectKind::Init {
        match dir_state {
            Err(m) => return Err(m),
            Ok(_) => {},
        }
    }
    let placeholders = prepare_placeholders(path);
    let mut actions: Vec<EntryAction> = Vec::new();
    let mut i: usize = 0;
    while i < entries.len()
        invariant
            i <= entries@.len(),
            placeholders@ == placeholder_map(path@),
            actions@.len() == i,
            forall|k: int|
                0 <= k < i ==> action_view(#[trigger] actions@[k]) == entry_action_spec(
                    kind,
                    entries@[k].kind,
                    join_path(path@, entries@[k].path@),
                    rendered(entries@[k].raw@, placeholder_map(path@)),
                    entries@[k].target_exists,
                ),
        decreases entries@.len() - i,
    {
        let e = &entries[i];
        let a = entry_plan(path, kind, e.kind, e.path.as_str(), e.raw.as_str(), &placeholders, e.target_exists);
        actions.push(a);
        i = i + 1;
    }
    Ok(ScaffoldPlan { create_dir: kind == ProjectKind::New, actions })
}

} // verus!
