//! Project-creation helpers: package-name rules, version-control
//! settings and the layout of a new project.

use vstd::prelude::*;
use vstd::string::*;

use crate::error::Error;
use crate::fs_query::{dir_has_entries, path_exists, path_is_dir};
use crate::text::{
    all_in_class, all_in_class_exec, chars_of, contains_exec, contains_seq, in_class, in_class_exec,
    is_lower, to_owned_string, CharClass,
};
use crate::Result;

verus! {

/// Represents the type of version control system to use
#[derive(Debug, Clone, Copy, PartialEq, Eq, Structural)]
pub enum VcsType {
    /// Git version control (default)
    Git,
    /// No version control
    Disabled,
}

/// The version-control choice, under the name the command line uses.
pub type Vcs = VcsType;

impl Default for VcsType {
    fn default() -> (v: Self)
        ensures
            v == VcsType::Git,
    {
        VcsType::Git
    }
}

/// What setting up version control does in a directory: whether a git
/// repository is made there (with git chosen and no `.git` present), and
/// whether the ignore file is written (with git chosen and the ignore file
/// absent, `ignore_empty` being `None`, or present and empty). The second
/// step is taken after the first, whatever the first found.
pub fn vcs_plan(vcs_type: VcsType, has_git_dir: bool, ignore_empty: Option<bool>) -> (r: (bool, bool))
    ensures
        r == (vcs_type == VcsType::Git && !has_git_dir, vcs_type == VcsType::Git && (ignore_empty is None
            || ignore_empty == Some(true))),
{
    match vcs_type {
        VcsType::Git => {
            let write = match ignore_empty {
                None => true,
                Some(empty) => empty,
            };
            (!has_git_dir, write)
        },
        VcsType::Disabled => (false, false),
    }
}

/// Configuration for package name validation
#[derive(Debug, Clone, PartialEq, Eq)]
pub struct PackageNameConfig<'a> {
    /// The package name to validate
    pub name: &'a str,
    /// Whether this is a scoped package (starts with @)
    pub is_scoped: bool,
}

/// `s[from..to]` matches `[a-z][a-z0-9-._]*[a-z0-9]`.
pub open spec fn npm_body_ok(s: Seq<char>, from: int, to: int) -> bool {
    &&& 0 <= from
    &&& from + 2 <= to <= s.len()
    &&& is_lower(s[from])
    &&& in_class(s[to - 1], CharClass::LowerDigit)
    &&& all_in_class(s, from + 1, to - 1, CharClass::LowerDigitDashDotUnderscore)
}

/// `s[from..to]` matches `[a-z][a-z0-9-]*`.
pub open spec fn npm_scope_ok(s: Seq<char>, from: int, to: int) -> bool {
    &&& 0 <= from < to <= s.len()
    &&& is_lower(s[from])
    &&& all_in_class(s, from + 1, to, CharClass::LowerDigitDash)
}

/// `s` matches `^(?:@[a-z][a-z0-9-]*/)?[a-z][a-z0-9-._]*[a-z0-9]$`.
pub open spec fn npm_name_pattern(s: Seq<char>) -> bool {
    ||| npm_body_ok(s, 0, s.len() as int)
    ||| (s.len() > 0 && s[0] == '@' && exists|j: int|
        1 <= j < s.len() && #[trigger] s[j] == '/' && npm_scope_ok(s, 1, j) && npm_body_ok(
            s,
            j + 1,
            s.len() as int,
        ))
}

/// `s` has two dots, two hyphens or two underscores in a row.
pub open spec fn has_doubled_separator(s: Seq<char>) -> bool {
    contains_seq(s, ".."@) || contains_seq(s, "--"@) || contains_seq(s, "__"@)
}

/// Why `validate_package_name` refuses `s`, or `None` when it accepts it.
pub open spec fn package_name_refusal(s: Seq<char>) -> Option<Seq<char>> {
    if s.len() == 0 {
        Some("Package name cannot be empty"@)
    } else if has_doubled_separator(s) {
        Some("Package name cannot contain consecutive dots, hyphens, or underscores"@)
    } else if !npm_name_pattern(s) {
        Some(NAME_FORMAT_REASON@)
    } else {
        None
    }
}

/// The reason given for a name of the wrong shape.
pub const NAME_FORMAT_REASON: &'static str = "Invalid package name format. Package names must:\n- Start with a letter (or @ for scoped packages)\n- Contain only lowercase letters, numbers, and special characters: -._\n- Not end with a dot, hyphen, or underscore\n- Follow the pattern: [a-z][a-z0-9-._]*[a-z0-9] or @scope/[a-z][a-z0-9-._]*[a-z0-9]";

fn npm_body_ok_exec(v: &Vec<char>, from: usize, to: usize) -> (b: bool)
    requires
        from <= to <= v@.len(),
    ensures
        b == npm_body_ok(v@, from as int, to as int),
{
    if to - from < 2 {
        return false;
    }
    in_class_exec(v[from], CharClass::Lower) && in_class_exec(v[to - 1], CharClass::LowerDigit)
        && all_in_class_exec(v, from + 1, to - 1, CharClass::LowerDigitDashDotUnderscore)
}

fn npm_scope_ok_exec(v: &Vec<char>, from: usize, to: usize) -> (b: bool)
    requires
        from <= to <= v@.len(),
    ensures
        b == npm_scope_ok(v@, from as int, to as int),
{
    if from == to {
        return false;
    }
    in_class_exec(v[from], CharClass::Lower) && all_in_class_exec(
        v,
        from + 1,
        to,
        CharClass::LowerDigitDash,
    )
}

/// Whether `v` has the shape of an npm package name.
pub fn npm_name_pattern_exec(v: &Vec<char>) -> (b: bool)
    ensures
        b == npm_name_pattern(v@),
{
    if v.len() > 0 && v[0] == '@' {
        assert(!npm_body_ok(v@, 0, v@.len() as int));
        let mut j: usize = 1;
        while j < v.len() && v[j] != '/'
            invariant
                1 <= j <= v@.len(),
                v@[0] == '@',
                forall|k: int| 1 <= k < j ==> v@[k] != '/',
            decreases v@.len() - j,
        {
            j = j + 1;
        }
        if j == v.len() {
            return false;
        }
        let ok = npm_scope_ok_exec(v, 1, j) && npm_body_ok_exec(v, j + 1, v.len());
        assert forall|k: int|
            1 <= k < v@.len() && #[trigger] v@[k] == '/' && npm_scope_ok(v@, 1, k) implies k
            == j by {
            if k > j {
                assert(in_class(v@[j as int], CharClass::LowerDigitDash));
            }
        }
        ok
    } else {
        npm_body_ok_exec(v, 0, v.len())
    }
}

/// Checks a package name against the npm naming rules: not empty, no
/// doubled `.`, `-` or `_`, lowercase letters, digits and `-._`, starting
/// with a letter and ending with a letter or digit, optionally under an
/// `@scope/` made of a letter then letters, digits and `-`.
pub fn validate_package_name(name: &str) -> (r: Result<()>)
    ensures
        r is Ok <==> package_name_refusal(name@) is None,
        r matches Err(e) ==> (e matches Error::InvalidPackageName { name: n, reason: why } && n@
            == name@ && package_name_refusal(name@) == Some(why@)),
{
    let v = chars_of(name);
    if v.len() == 0 {
        return Err(
            Error::InvalidPackageName {
                name: to_owned_string(name),
                reason: String::from_str("Package name cannot be empty"),
            },
        );
    }
    let doubled = contains_exec(&v, &chars_of("..")) || contains_exec(&v, &chars_of("--"))
        || contains_exec(&v, &chars_of("__"));
    if doubled {
        return Err(
            Error::InvalidPackageName {
                name: to_owned_string(name),
                reason: String::from_str(
                    "Package name cannot contain consecutive dots, hyphens, or underscores",
                ),
            },
        );
    }
    if !npm_name_pattern_exec(&v) {
        return Err(
            Error::InvalidPackageName {
                name: to_owned_string(name),
                reason: String::from_str(NAME_FORMAT_REASON),
            },
        );
    }
    Ok(())
}

/// Configuration for version control initialization
#[derive(Debug, Clone)]
pub struct VcsConfig {
    /// Type of version control system
    pub vcs_type: VcsType,
    /// Content of the ignore file
    pub ignore_content: String,
}

impl Default for VcsConfig {
    fn default() -> (c: Self)
        ensures
            c.vcs_type == VcsType::Git,
            c.ignore_content@ == crate::template::GITIGNORE_CONTENT@,
    {
        VcsConfig {
            vcs_type: VcsType::Git,
            ignore_content: String::from_str(crate::template::GITIGNORE_CONTENT),
        }
    }
}

/// `r` is the emptiness of `path` as the file system's answers decide it:
/// whether the path exists, whether it is a directory, and what listing it
/// gave (whether it has an entry, or the system's message). A missing path
/// counts as empty, a path that is not a directory is refused, and
/// otherwise a listing without entries is empty.
pub open spec fn emptiness_agrees(
    path: Seq<char>,
    exists: bool,
    is_dir: bool,
    listing: core::result::Result<bool, Seq<char>>,
    r: Result<bool>,
) -> bool {
    if !exists {
        r == Ok::<bool, Error>(true)
    } else if !is_dir {
        r matches Err(Error::DirectoryExists { path: p }) && p@ == path
    } else {
        match listing {
            Ok(has) => r == Ok::<bool, Error>(!has),
            Err(m) => (r matches Err(Error::Io { message }) && message@ == m),
        }
    }
}

/// A listing's answer as text.
pub open spec fn listing_text(l: core::result::Result<bool, String>) -> core::result::Result<bool, Seq<char>> {
    match l {
        Ok(b) => Ok(b),
        Err(m) => Err(m@),
    }
}

/// What the file system said of `path` decides its emptiness (see
/// `emptiness_agrees`).
pub fn emptiness_verdict(path: &str, exists: bool, is_dir: bool, listing: core::result::Result<bool, String>) -> (r: Result<bool>)
    ensures
        emptiness_agrees(path@, exists, is_dir, listing_text(listing), r),
{
    if !exists {
        return Ok(true);
    }
    if !is_dir {
        return Err(Error::DirectoryExists { path: to_owned_string(path) });
    }
    match listing {
        Ok(has) => Ok(!has),
        Err(message) => Err(Error::Io { message }),
    }
}

/// Whether the directory at `path` is empty, as the disk answers: the
/// result is that of `emptiness_verdict` on the disk's answers.
pub fn is_directory_empty(path: &str) -> (r: Result<bool>)
    ensures
        exists|exists: bool, is_dir: bool, listing: core::result::Result<bool, Seq<char>>|
            #[trigger] emptiness_agrees(path@, exists, is_dir, listing, r),
{
    if !path_exists(path) {
        let r = emptiness_verdict(path, false, false, Ok(false));
        assert(emptiness_agrees(path@, false, false, Ok(false), r));
        return r;
    }
    if !path_is_dir(path) {
        let r = emptiness_verdict(path, true, false, Ok(false));
        assert(emptiness_agrees(path@, true, false, Ok(false), r));
        return r;
    }
    let listing = dir_has_entries(path);
    let ghost lt = listing_text(listing);
    let r = emptiness_verdict(path, true, true, listing);
    assert(emptiness_agrees(path@, true, true, lt, r));
    r
}

/// `r` is what requiring `path` to be empty gives, from its emptiness:
/// an empty one passes, one with entries is refused as not empty, and a
/// failure to tell is passed on.
pub open spec fn requirement_agrees(path: Seq<char>, emptiness: Result<bool>, r: Result<()>) -> bool {
    match emptiness {
        Ok(true) => r == Ok::<(), Error>(()),
        Ok(false) => (r matches Err(Error::DirectoryNotEmpty { path: p }) && p@ == path),
        Err(x) => r == Err::<(), Error>(x),
    }
}

/// Requires `path` to be empty, given its emptiness (see
/// `requirement_agrees`).
pub fn emptiness_requirement(path: &str, emptiness: Result<bool>) -> (r: Result<()>)
    ensures
        requirement_agrees(path@, emptiness, r),
{
    match emptiness {
        Ok(true) => Ok(()),
        Ok(false) => Err(Error::DirectoryNotEmpty { path: to_owned_string(path) }),
        Err(e) => Err(e),
    }
}

/// Refuses a destination directory that already holds files: a missing
/// or empty directory passes, a non-empty one or a path that is not a
/// directory is refused, as the disk's answers decide.
pub fn ensure_directory_empty(path: &str) -> (r: Result<()>)
    ensures
        exists|exists: bool, is_dir: bool, listing: core::result::Result<bool, Seq<char>>, emptiness: Result<bool>|
            #[trigger] emptiness_agrees(path@, exists, is_dir, listing, emptiness) && requirement_agrees(
                path@,
                emptiness,
                r,
            ),
{
    let emptiness = is_directory_empty(path);
    let ghost em = emptiness;
    let r = emptiness_requirement(path, emptiness);
    assert(requirement_agrees(path@, em, r));
    r
}

/// The layout of a new project.
#[derive(Debug, Clone)]
pub struct ProjectStructure {
    /// Root path of the project
    pub path: String,
    /// Whether this is a binary project
    pub is_binary: bool,
    /// Source file content
    pub source_content: String,
}

/// The layout of a new project at `path`: a binary starts from the main
/// script template, a library from the library template.
pub fn create_project_config(path: &str, is_binary: bool) -> (p: ProjectStructure)
    ensures
        p.path@ == path@,
        p.is_binary == is_binary,
        p.source_content@ == (if is_binary {
            crate::template::MAIN_JS_CONTENT@
        } else {
            crate::template::LIB_JS_CONTENT@
        }),
{
    let source_content = if is_binary {
        String::from_str(crate::template::MAIN_JS_CONTENT)
    } else {
        String::from_str(crate::template::LIB_JS_CONTENT)
    };
    ProjectStructure { path: to_owned_string(path), is_binary, source_content }
}

} // verus!
