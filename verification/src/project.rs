//! Scaffolding of a package from the bundled template: the checks on
//! the target directory and its name, and what becomes of each entry of
//! the template archive.

use vstd::prelude::*;
use vstd::string::*;
use vstd::utf8::encode_utf8;

use crate::fs_query::{dir_has_entries, path_exists};
use crate::ops::replace::rendered;
use crate::ops::validate::{registry_name_check, registry_name_failure, NameCheck, PKG_NAME_LENGTH};
use crate::paths::{file_name, file_name_of, join, join_path};
use crate::replace::Replacer;
use crate::text::{append_str, decimal, decimal_string};

verus! {

/// Whether a package is scaffolded into a new directory or into the
/// current one.
#[derive(Debug, Clone, Copy, PartialEq, Eq, Structural)]
pub enum ProjectKind {
    New,
    Init,
}

/// The message for a package name that fails `check`.
pub open spec fn pkg_name_message(name: Seq<char>, check: NameCheck) -> Seq<char> {
    match check {
        NameCheck::Empty => "Package name cannot be empty."@,
        NameCheck::TooLong => "Package name length exceeds 214 characters (found length: "@ + decimal(
            (encode_utf8(name).len() as usize) as nat,
        ) + "). The maximum allowed is 214."@,
        NameCheck::BadStart => "Package name cannot start with a period (.) or underscore (_)."@,
        NameCheck::BadSequence => "Package name cannot contain double periods (..) or '@' without a scope."@,
        NameCheck::BadCharacters => "Package name '"@ + name + "' contains invalid characters."@,
    }
}

/// Checks `name` against the npm registry's rules and says, in full, which
/// rule failed first.
pub fn validate_pkg_name(name: &str) -> (r: Result<(), String>)
    ensures
        r is Ok <==> registry_name_failure(name@) is None,
        r matches Err(m) ==> registry_name_failure(name@) matches Some(c) && m@ == pkg_name_message(
            name@,
            c,
        ),
{
    match registry_name_check(name) {
        None => Ok(()),
        Some(NameCheck::Empty) => Err(String::from_str("Package name cannot be empty.")),
        Some(NameCheck::TooLong) => {
            let mut m = String::from_str("Package name length exceeds 214 characters (found length: ");
            let n = decimal_string(name.len() as u64);
            append_str(&mut m, n.as_str());
            append_str(&mut m, "). The maximum allowed is 214.");
            Err(m)
        },
        Some(NameCheck::BadStart) => Err(
            String::from_str("Package name cannot start with a period (.) or underscore (_)."),
        ),
        Some(NameCheck::BadSequence) => Err(
            String::from_str(
                "Package name cannot contain double periods (..) or '@' without a scope.",
            ),
        ),
        Some(NameCheck::BadCharacters) => {
            let mut m = String::from_str("Package name '");
            append_str(&mut m, name);
            append_str(&mut m, "' contains invalid characters.");
            Err(m)
        },
    }
}

/// The message for a path with no final name.
pub open spec fn no_dir_name_message(path: Seq<char>) -> Seq<char> {
    "Invalid directory name (could not extract a valid UTF-8 name from path \""@ + path
        + "\")"@
}

/// Checks that the last component of `path` is a valid package name.
pub fn validate_dir_name(path: &str) -> (r: Result<(), String>)
    ensures
        match file_name_of(path@) {
            None => (r matches Err(m) && m@ == no_dir_name_message(path@)),
            Some(n) => (r is Ok <==> registry_name_failure(n) is None) && (r matches Err(m)
                ==> registry_name_failure(n) matches Some(c) && m@ == pkg_name_message(n, c)),
        },
{
    match file_name(path) {
        None => {
            let mut m = String::from_str(
                "Invalid directory name (could not extract a valid UTF-8 name from path \"",
            );
            append_str(&mut m, path);
            append_str(&mut m, "\")");
            Err(m)
        },
        Some(n) => validate_pkg_name(n.as_str()),
    }
}


/// The value that stands for `{{ NAME }}` when scaffolding into `path`:
/// its last component, or the whole path when it has none.
pub open spec fn package_name_for(path: Seq<char>) -> Seq<char> {
    match file_name_of(path) {
        Some(n) => n,
        None => path,
    }
}

/// The replacements for scaffolding into `path`: `NAME` is the
/// directory's name.
pub fn prepare_replacement(path: &str) -> (r: Replacer)
    ensures
        r@ == Map::<Seq<char>, Seq<char>>::empty().insert("NAME"@, package_name_for(path@)),
{
    let mut rep = Replacer::new();
    match file_name(path) {
        Some(n) => rep.add("NAME", n.as_str()),
        None => rep.add("NAME", path),
    }
    rep
}

/// The message for a directory that already holds a manifest.
pub open spec fn manifest_exists_message(path: Seq<char>) -> Seq<char> {
    "A 'package.json' manifest already exists in '"@ + path + "'."@
}

/// What the file system said of `path` decides whether a package may be
/// initialised there: a failed listing is refused with the system's
/// message, a present manifest is refused; otherwise the answer says
/// whether the directory already holds entries (which are kept).
pub fn dir_state_verdict(path: &str, listing: Result<bool, String>, manifest_exists: bool) -> (r: Result<bool, String>)
    ensures
        match listing {
            Err(m) => r == Err::<bool, String>(m),
            Ok(has) => if manifest_exists {
                (r matches Err(m) && m@ == manifest_exists_message(path@))
            } else {
                r == Ok::<bool, String>(has)
            },
        },
{
    match listing {
        Err(m) => Err(m),
        Ok(has) => {
            if manifest_exists {
                let mut m = String::from_str("A 'package.json' manifest already exists in '");
                append_str(&mut m, path);
                append_str(&mut m, "'.");
                Err(m)
            } else {
                Ok(has)
            }
        },
    }
}

/// Checks the directory at `path` before a package is initialised in it:
/// refused when it cannot be listed or already holds a `package.json`;
/// otherwise the answer says whether it already holds entries. What the
/// disk answers is not known here; `dir_state_verdict` states how each
/// answer is judged.
pub fn validate_dir_state(path: &str) -> (r: Result<bool, String>)
    ensures
        exists|listing: core::result::Result<bool, Seq<char>>, manifest_exists: bool|
            #[trigger] dir_state_outcome(path@, listing, manifest_exists) == match r {
                Ok(b) => Ok(b),
                Err(m) => Err(m@),
            },
{
    let listing = dir_has_entries(path);
    let ghost lv = crate::ops::new::listing_view(listing);
    if listing.is_err() {
        let r = dir_state_verdict(path, listing, false);
        assert(dir_state_outcome(path@, lv, false) == match r {
            Ok(b) => Ok(b),
            Err(m) => Err::<bool, Seq<char>>(m@),
        });
        return r;
    }
    let manifest = crate::paths::manifest_path(path);
    let present = path_exists(manifest.as_str());
    let r = dir_state_verdict(path, listing, present);
    assert(dir_state_outcome(path@, lv, present) == match r {
        Ok(b) => Ok(b),
        Err(m) => Err::<bool, Seq<char>>(m@),
    });
    r
}

/// What `dir_state_verdict` gives, as text.
pub open spec fn dir_state_outcome(path: Seq<char>, listing: core::result::Result<bool, Seq<char>>, manifest_exists: bool) -> core::result::Result<bool, Seq<char>> {
    match listing {
        Err(m) => Err(m),
        Ok(has) => if manifest_exists {
            Err(manifest_exists_message(path))
        } else {
            Ok(has)
        },
    }
}

/// The kinds of entry in a template archive.
#[derive(Debug, Clone, Copy, PartialEq, Eq, Structural)]
pub enum EntryKind {
    Directory,
    Regular,
    Other,
}

/// What becomes of one entry of the template archive.
#[derive(Debug, Clone, PartialEq, Eq)]
pub enum EntryAction {
    /// Create this directory and its parents.
    CreateDir { path: String },
    /// Write this content to this file, creating its parent directories.
    WriteFile { path: String, content: String },
    /// Leave the entry out, with this warning.
    Skip { warning: String },
}

/// The action for an entry whose target is `out` and whose content, once
/// its placeholders are replaced, is `content`; `exists` says whether the
/// target file is already there.
pub open spec fn entry_action_spec(kind: ProjectKind, entry: EntryKind, out: Seq<char>, content: Seq<char>, exists: bool) -> (Seq<char>, Seq<char>, int) {
    match entry {
        EntryKind::Directory => (out, Seq::empty(), 0),
        EntryKind::Regular => if kind == ProjectKind::Init && exists {
            ("File already exists; skipping: "@ + out, Seq::empty(), 2)
        } else {
            (out, content, 1)
        },
        EntryKind::Other => ("Unsupported entry type; skipping: "@ + out, Seq::empty(), 2),
    }
}

/// An action as (path or warning, content, which of the three).
pub open spec fn action_view(a: EntryAction) -> (Seq<char>, Seq<char>, int) {
    match a {
        EntryAction::CreateDir { path } => (path@, Seq::empty(), 0),
        EntryAction::WriteFile { path, content } => (path@, content@, 1),
        EntryAction::Skip { warning } => (warning@, Seq::empty(), 2),
    }
}

/// Decides what becomes of an archive entry: a directory is created, a
/// regular file is written, except that when initialising in place an
/// existing file is kept; entries of any other kind are skipped.
pub fn entry_action(kind: ProjectKind, entry: EntryKind, out: String, content: String, exists: bool) -> (r: EntryAction)
    ensures
        action_view(r) == entry_action_spec(kind, entry, out@, content@, exists),
{
    match entry {
        EntryKind::Directory => EntryAction::CreateDir { path: out },
        EntryKind::Regular => {
            if kind == ProjectKind::Init && exists {
                let mut w = String::from_str("File already exists; skipping: ");
                append_str(&mut w, out.as_str());
                EntryAction::Skip { warning: w }
            } else {
                EntryAction::WriteFile { path: out, content }
            }
        },
        EntryKind::Other => {
            let mut w = String::from_str("Unsupported entry type; skipping: ");
            append_str(&mut w, out.as_str());
            EntryAction::Skip { warning: w }
        },
    }
}

/// Plans one entry of the template archive for a package scaffolded into
/// `project_path`: its target is `entry_path` joined onto the project
/// path, and its text has the placeholders replaced by `replacer`.
pub fn plan_entry(project_path: &str, kind: ProjectKind, entry: EntryKind, entry_path: &str, raw: &str, replacer: &Replacer) -> (r: EntryAction)
    ensures
        exists|present: bool|
            action_view(r) == entry_action_spec(
                kind,
                entry,
                join_path(project_path@, entry_path@),
                rendered(raw@, replacer@),
                present,
            ),
{
    let out = join(project_path, entry_path);
    let content = replacer.with_haystack(raw);
    let present = if kind == ProjectKind::Init && entry == EntryKind::Regular {
        path_exists(out.as_str())
    } else {
        false
    };
    entry_action(kind, entry, out, content, present)
}


/// An entry of the template archive, as read from it: its kind, its path
/// in the archive, its text, and whether its target file is already there.
#[derive(Debug, Clone)]
pub struct ArchiveEntry {
    pub kind: EntryKind,
    pub path: String,
    pub raw: String,
    pub target_exists: bool,
}

/// The plan of scaffolding a package: whether its directory is made, then
/// what becomes of each entry of the template archive, in order.
#[derive(Debug, Clone)]
pub struct ScaffoldPlan {
    pub create_dir: bool,
    pub actions: Vec<EntryAction>,
}

/// The replacements for scaffolding into `path` (see `prepare_replacement`).
pub open spec fn scaffold_replacements(path: Seq<char>) -> Map<Seq<char>, Seq<char>> {
    Map::<Seq<char>, Seq<char>>::empty().insert("NAME"@, package_name_for(path))
}

/// `r` is what scaffolding a package of `kind` into `path` gives, from
/// what checking the directory said (used when initialising) and the
/// entries of the template archive: a directory name that is no package
/// name is refused, then (when initialising) a refused directory;
/// otherwise a new package's directory is made and each entry becomes the
/// action `entry_action_spec` gives it, its target joined onto `path` and
/// its text with the placeholders replaced.
pub open spec fn scaffold_agrees(
    path: Seq<char>,
    kind: ProjectKind,
    dir_state: core::result::Result<bool, Seq<char>>,
    entries: Seq<ArchiveEntry>,
    r: Result<ScaffoldPlan, String>,
) -> bool {
    match file_name_of(path) {
        None => (r matches Err(m) && m@ == no_dir_name_message(path)),
        Some(n) => match registry_name_failure(n) {
            Some(c) => (r matches Err(m) && m@ == pkg_name_message(n, c)),
            None => if kind == ProjectKind::Init && dir_state is Err {
                r matches Err(m) && m@ == dir_state->Err_0
            } else {
                r matches Ok(plan) && plan.create_dir == (kind == ProjectKind::New)
                    && plan.actions@.len() == entries.len() && forall|i: int|
                    0 <= i < entries.len() ==> action_view(#[trigger] plan.actions@[i]) == entry_action_spec(
                        kind,
                        entries[i].kind,
                        join_path(path, entries[i].path@),
                        rendered(entries[i].raw@, scaffold_replacements(path)),
                        entries[i].target_exists,
                    )
            },
        },
    }
}

/// Decides the scaffolding of a package of `kind` into `path` (see
/// `scaffold_agrees`): `dir_state` is what `validate_dir_state` said of
/// the directory, and `entries` are those of the template archive.
pub fn scaffold_plan(path: &str, kind: ProjectKind, dir_state: Result<bool, String>, entries: &Vec<ArchiveEntry>) -> (r: Result<ScaffoldPlan, String>)
    ensures
        scaffold_agrees(path@, kind, crate::ops::new::listing_view(dir_state), entries@, r),
{
    match validate_dir_name(path) {
        Err(m) => return Err(m),
        Ok(()) => {},
    }
    if kind == ProjectKind::Init {
        match dir_state {
            Err(m) => return Err(m),
            Ok(_) => {},
        }
    }
    let replacer = prepare_replacement(path);
    let mut actions: Vec<EntryAction> = Vec::new();
    let mut i: usize = 0;
    while i < entries.len()
        invariant
            i <= entries@.len(),
            replacer@ == scaffold_replacements(path@),
            actions@.len() == i,
            forall|k: int|
                0 <= k < i ==> action_view(#[trigger] actions@[k]) == entry_action_spec(
                    kind,
                    entries@[k].kind,
                    join_path(path@, entries@[k].path@),
                    rendered(entries@[k].raw@, scaffold_replacements(path@)),
                    entries@[k].target_exists,
                ),
        decreases entries@.len() - i,
    {
        let e = &entries[i];
        let out = join(path, e.path.as_str());
        let content = replacer.with_haystack(e.raw.as_str());
        let a = entry_action(kind, e.kind, out, content, e.target_exists);
        actions.push(a);
        i = i + 1;
    }
    Ok(ScaffoldPlan { create_dir: kind == ProjectKind::New, actions })
}

/// What the status line says when scaffolding into `path` starts.
pub fn scaffold_message(path: &str) -> (r: String)
    ensures
        r@ == "`"@ + path@ + "` package"@,
{
    let mut r = String::from_str("`");
    append_str(&mut r, path);
    append_str(&mut r, "` package");
    r
}

/// The message for a project directory that cannot be created.
pub fn creation_failure(path: &str, why: &str) -> (r: String)
    ensures
        r@ == "Destination '"@ + path@ + "' already exists or cannot be created: "@ + why@
            + "\n\nHint: Use `cargonode init` to initialize in the current directory."@,
{
    let mut r = String::from_str("Destination '");
    append_str(&mut r, path);
    append_str(&mut r, "' already exists or cannot be created: ");
    append_str(&mut r, why);
    append_str(&mut r, "\n\nHint: Use `cargonode init` to initialize in the current directory.");
    r
}

/// The note shown when no package manager is chosen to install the
/// dependencies.
pub fn no_manager_note() -> (r: String)
    ensures
        r@ == "No package manager was specified. If you don't have a preferred manager, run `npm install` to install dependencies."@,
{
    String::from_str(
        "No package manager was specified. If you don't have a preferred manager, run `npm install` to install dependencies.",
    )
}

} // verus!
