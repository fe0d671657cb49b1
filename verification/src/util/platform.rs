//! Platform conventions (separators, line endings, executable names) and
//! the security checks on names, paths and workspace patterns.

use vstd::prelude::*;
use vstd::string::*;
use vstd::utf8::encode_utf8;

use crate::cn_core::path::{parent_dir, parent_of};
use crate::fs_query::{path_exists, path_is_symlink};
use crate::paths::{components_of, is_absolute, slash, slash_vec};
use crate::text::{
    all_in_class, all_in_class_exec, append_str, chars_of, contains_char, contains_exec,
    contains_seq, in_class, push_char, replace_all, replace_str, split, split_exec, string_from_chars,
    string_from_range, views, CharClass,
};

verus! {

/// The platforms the tool knows the conventions of.
#[derive(Debug, Clone, Copy, PartialEq, Eq, Structural)]
pub enum Platform {
    Windows,
    MacOS,
    Linux,
    Unknown,
}

/// `s` with NUL characters removed and separators turned into the
/// platform's own: `/` into `\` on Windows, `\` into `/` elsewhere.
pub open spec fn path_normalized(s: Seq<char>, windows: bool) -> Seq<char>
    decreases s.len(),
{
    if s.len() == 0 {
        Seq::empty()
    } else {
        let rest = path_normalized(s.drop_last(), windows);
        let c = s.last();
        if c == '\0' {
            rest
        } else if !windows && c == '\\' {
            rest.push('/')
        } else if windows && c == '/' {
            rest.push('\\')
        } else {
            rest.push(c)
        }
    }
}

/// The separator that `path_normalized` does not leave behind.
pub open spec fn foreign_separator(windows: bool) -> char {
    if windows {
        '/'
    } else {
        '\\'
    }
}

/// Normalises `path` for `platform`: drops NUL characters and uses the
/// platform's separator throughout.
pub fn normalize_path(path: &str, platform: Platform) -> (r: String)
    ensures
        r@ == path_normalized(path@, platform == Platform::Windows),
{
    let windows = platform == Platform::Windows;
    let v = chars_of(path);
    let mut out = String::new();
    let mut i: usize = 0;
    while i < v.len()
        invariant
            i <= v@.len(),
            windows == (platform == Platform::Windows),
            out@ == path_normalized(v@.subrange(0, i as int), windows),
        decreases v@.len() - i,
    {
        let c = v[i];
        if c == '\0' {
        } else if !windows && c == '\\' {
            push_char(&mut out, '/');
        } else if windows && c == '/' {
            push_char(&mut out, '\\');
        } else {
            push_char(&mut out, c);
        }
        assert(v@.subrange(0, i + 1).drop_last() =~= v@.subrange(0, i as int));
        i = i + 1;
    }
    assert(v@.subrange(0, v@.len() as int) =~= v@);
    out
}

proof fn lemma_normalized_clean(s: Seq<char>, windows: bool)
    ensures
        forall|i: int|
            0 <= i < path_normalized(s, windows).len() ==> #[trigger] path_normalized(s, windows)[i]
                != '\0' && path_normalized(s, windows)[i] != foreign_separator(windows),
    decreases s.len(),
{
    if s.len() > 0 {
        lemma_normalized_clean(s.drop_last(), windows);
        let rest = path_normalized(s.drop_last(), windows);
        let t = path_normalized(s, windows);
        assert forall|i: int| 0 <= i < t.len() implies #[trigger] t[i] != '\0' && t[i]
            != foreign_separator(windows) by {
            if i < rest.len() {
                assert(t[i] == rest[i]);
            }
        }
    }
}

proof fn lemma_normalized_fixed(s: Seq<char>, windows: bool)
    requires
        forall|i: int| 0 <= i < s.len() ==> #[trigger] s[i] != '\0' && s[i] != foreign_separator(windows),
    ensures
        path_normalized(s, windows) == s,
    decreases s.len(),
{
    if s.len() > 0 {
        let t = s.drop_last();
        assert forall|i: int| 0 <= i < t.len() implies #[trigger] t[i] != '\0' && t[i] != foreign_separator(windows) by {
            assert(t[i] == s[i]);
        }
        lemma_normalized_fixed(t, windows);
        assert(s.last() == s[s.len() - 1]);
        assert(t.push(s.last()) =~= s);
    }
}

/// Normalising a path twice gives what normalising it once gives, and
/// the result holds neither NUL nor the other platform's separator.
pub proof fn law_normalize_path_idempotent(s: Seq<char>, windows: bool)
    ensures
        path_normalized(path_normalized(s, windows), windows) == path_normalized(s, windows),
        !path_normalized(s, windows).contains('\0'),
        !path_normalized(s, windows).contains(foreign_separator(windows)),
{
    lemma_normalized_clean(s, windows);
    lemma_normalized_fixed(path_normalized(s, windows), windows);
}

/// `content` with the platform's line endings: on Windows every line
/// ends in `\r\n`; elsewhere `\r\n` becomes `\n` (a text without `\r` is
/// left as it is).
pub open spec fn line_endings_normalized(content: Seq<char>, windows: bool) -> Seq<char> {
    if windows {
        if !content.contains('\r') {
            replace_all(content, "\n"@, "\r\n"@)
        } else {
            replace_all(replace_all(content, "\r\n"@, "\n"@), "\n"@, "\r\n"@)
        }
    } else {
        if !content.contains('\r') {
            content
        } else {
            replace_all(content, "\r\n"@, "\n"@)
        }
    }
}

/// Converts the line endings of `content` to those of `platform`.
pub fn normalize_line_endings(content: &str, platform: Platform) -> (r: String)
    ensures
        r@ == line_endings_normalized(content@, platform == Platform::Windows),
{
    let v = chars_of(content);
    let crlf = chars_of("\r\n");
    let lf = chars_of("\n");
    proof {
        reveal_strlit("\r\n");
        reveal_strlit("\n");
    }
    if platform == Platform::Windows {
        if !contains_char(&v, '\r') {
            string_from_chars(&replace_str(&v, &lf, &crlf))
        } else {
            let unix = replace_str(&v, &crlf, &lf);
            string_from_chars(&replace_str(&unix, &lf, &crlf))
        }
    } else {
        if !contains_char(&v, '\r') {
            content.to_owned()
        } else {
            string_from_chars(&replace_str(&v, &crlf, &lf))
        }
    }
}

/// Operations whose behaviour depends on the platform.
pub trait Ops {
    /// The separator of path components.
    fn path_separator(&self) -> char;

    /// The end of a line in text files.
    fn line_ending(&self) -> &'static str;

    /// The file name extension of executables.
    fn executable_extension(&self) -> &'static str;

    /// `path` with the platform's separators.
    fn normalize_path(&self, path: &str) -> String;

    /// `content` with the platform's line endings.
    fn normalize_line_endings(&self, content: &str) -> String;
}

impl Ops for Platform {
    fn path_separator(&self) -> (c: char)
        ensures
            c == (if *self == Platform::Windows {
                '\\'
            } else {
                '/'
            }),
    {
        if *self == Platform::Windows {
            '\\'
        } else {
            '/'
        }
    }

    fn line_ending(&self) -> (r: &'static str)
        ensures
            r@ == (if *self == Platform::Windows {
                "\r\n"@
            } else {
                "\n"@
            }),
    {
        if *self == Platform::Windows {
            "\r\n"
        } else {
            "\n"
        }
    }

    fn executable_extension(&self) -> (r: &'static str)
        ensures
            r@ == (if *self == Platform::Windows {
                ".exe"@
            } else {
                ""@
            }),
    {
        if *self == Platform::Windows {
            ".exe"
        } else {
            ""
        }
    }

    fn normalize_path(&self, path: &str) -> (r: String)
        ensures
            r@ == path_normalized(path@, *self == Platform::Windows),
    {
        normalize_path(path, *self)
    }

    fn normalize_line_endings(&self, content: &str) -> (r: String)
        ensures
            r@ == line_endings_normalized(content@, *self == Platform::Windows),
    {
        normalize_line_endings(content, *self)
    }
}

/// A character that names may not hold.
pub open spec fn is_forbidden_name_char(c: char) -> bool {
    c == '<' || c == '>' || c == '|' || c == ':' || c == '"' || c == '?' || c == '*' || c == '\0'
}

/// The message for `name` when it breaks the platform's naming rules, or
/// `None` when it keeps them: no forbidden character, at most 214 bytes,
/// and either `@scope/package` (scope of `[A-Za-z0-9-_]`, package of
/// `[A-Za-z0-9-_.]`, both non-empty) or a name of `[A-Za-z0-9-_.]` that
/// does not start with `.` or `_`.
pub open spec fn platform_name_error(name: Seq<char>) -> Option<Seq<char>> {
    if exists|i: int| 0 <= i < name.len() && is_forbidden_name_char(#[trigger] name[i]) {
        Some("Package name contains invalid characters: "@ + name)
    } else if (encode_utf8(name).len() as usize) > 214 {
        Some("Package name is too long (max 214 characters): "@ + name)
    } else if name.len() > 0 && name[0] == '@' {
        let parts = split(name, slash());
        if parts.len() != 2 {
            Some("Invalid scoped package name format: "@ + name)
        } else {
            let scope = if parts[0].len() == 0 {
                Seq::empty()
            } else {
                parts[0].skip(1)
            };
            let package = parts[1];
            if scope.len() == 0 || !all_in_class(scope, 0, scope.len() as int, CharClass::AlnumDashUnderscore) {
                Some("Invalid scope name: "@ + scope)
            } else if package.len() == 0 || !all_in_class(
                package,
                0,
                package.len() as int,
                CharClass::AlnumDashUnderscoreDot,
            ) {
                Some("Invalid package name: "@ + package)
            } else {
                None
            }
        }
    } else if name.len() > 0 && (name[0] == '.' || name[0] == '_') {
        Some("Package name cannot start with . or _: "@ + name)
    } else if !all_in_class(name, 0, name.len() as int, CharClass::AlnumDashUnderscoreDot) {
        Some("Package name contains non-URL-safe characters: "@ + name)
    } else {
        None
    }
}

fn has_forbidden_name_char(v: &Vec<char>) -> (b: bool)
    ensures
        b == exists|i: int| 0 <= i < v@.len() && is_forbidden_name_char(#[trigger] v@[i]),
{
    let mut i: usize = 0;
    while i < v.len()
        invariant
            i <= v@.len(),
            forall|j: int| 0 <= j < i ==> !is_forbidden_name_char(#[trigger] v@[j]),
        decreases v@.len() - i,
    {
        let c = v[i];
        if c == '<' || c == '>' || c == '|' || c == ':' || c == '"' || c == '?' || c == '*' || c
            == '\0' {
            assert(is_forbidden_name_char(v@[i as int]));
            return true;
        }
        i = i + 1;
    }
    false
}

fn message_with(prefix: &str, tail: &str) -> (r: String)
    ensures
        r@ == prefix@ + tail@,
{
    let mut m = prefix.to_owned();
    append_str(&mut m, tail);
    m
}

/// Checks `name` against the platform's naming rules (see
/// `platform_name_error`).
pub fn validate_package_name(name: &str) -> (r: Result<(), String>)
    ensures
        match platform_name_error(name@) {
            None => r is Ok,
            Some(m) => (r matches Err(e) && e@ == m),
        },
{
    let v = chars_of(name);
    if has_forbidden_name_char(&v) {
        return Err(message_with("Package name contains invalid characters: ", name));
    }
    if name.len() > 214 {
        return Err(message_with("Package name is too long (max 214 characters): ", name));
    }
    if v.len() > 0 && v[0] == '@' {
        let sep = slash_vec();
        let parts = split_exec(&v, &sep);
        if parts.len() != 2 {
            return Err(message_with("Invalid scoped package name format: ", name));
        }
        proof {
            assert(views(parts@)[0] == parts@[0]@);
            assert(views(parts@)[1] == parts@[1]@);
        }
        let first = &parts[0];
        let package = &parts[1];
        if first.len() <= 1 || !all_in_class_exec(first, 1, first.len(), CharClass::AlnumDashUnderscore) {
            let scope = if first.len() > 0 { string_from_range(first, 1, first.len()) } else { String::new() };
            proof {
                if first@.len() > 0 {
                    let sc = first@.skip(1);
                    assert(scope@ =~= sc);
                    if first@.len() > 1 && all_in_class(sc, 0, sc.len() as int, CharClass::AlnumDashUnderscore) {
                        assert forall|j: int| 1 <= j < first@.len() implies in_class(#[trigger] first@[j], CharClass::AlnumDashUnderscore) by {
                            assert(first@[j] == sc[j - 1]);
                        }
                        assert(false);
                    }
                } else {
                    assert(scope@ =~= Seq::<char>::empty());
                }
            }
            return Err(message_with("Invalid scope name: ", scope.as_str()));
        }
        proof {
            let sc = first@.skip(1);
            assert forall|j: int| 0 <= j < sc.len() implies in_class(#[trigger] sc[j], CharClass::AlnumDashUnderscore) by {
                assert(sc[j] == first@[j + 1]);
            }
        }
        if package.len() == 0 || !all_in_class_exec(package, 0, package.len(), CharClass::AlnumDashUnderscoreDot) {
            let p = string_from_chars(package);
            return Err(message_with("Invalid package name: ", p.as_str()));
        }
        return Ok(());
    }
    if v.len() > 0 && (v[0] == '.' || v[0] == '_') {
        return Err(message_with("Package name cannot start with . or _: ", name));
    }
    if !all_in_class_exec(&v, 0, v.len(), CharClass::AlnumDashUnderscoreDot) {
        return Err(message_with("Package name contains non-URL-safe characters: ", name));
    }
    Ok(())
}

/// The message for `path` when it fails the checks on file paths, given
/// whether symbolic links are allowed and whether `path` is one; `None`
/// when it passes: no `..` component, not absolute, not a forbidden link,
/// at most 260 bytes.
pub open spec fn file_path_error(path: Seq<char>, allow_symlinks: bool, is_symlink: bool) -> Option<Seq<char>> {
    if components_of(split(path, slash())).contains(seq!['.', '.']) {
        Some("Path traversal detected: "@ + path)
    } else if is_absolute(path) {
        Some("Absolute paths are not allowed: "@ + path)
    } else if !allow_symlinks && is_symlink {
        Some("Symlinks are not allowed: "@ + path)
    } else if (encode_utf8(path).len() as usize) > 260 {
        Some("Path is too long (max 260 characters): "@ + path)
    } else {
        None
    }
}

fn has_parent_component(v: &Vec<char>) -> (b: bool)
    ensures
        b == components_of(split(v@, slash())).contains(seq!['.', '.']),
{
    let sep = slash_vec();
    let segs = split_exec(v, &sep);
    let mut i: usize = 0;
    assert(views(segs@).subrange(0, 0) =~= Seq::<Seq<char>>::empty());
    while i < segs.len()
        invariant
            i <= segs@.len(),
            views(segs@) == split(v@, slash()),
            !components_of(views(segs@).subrange(0, i as int)).contains(seq!['.', '.']),
        decreases segs@.len() - i,
    {
        let seg = &segs[i];
        let ghost pre = views(segs@).subrange(0, i as int);
        let ghost next = views(segs@).subrange(0, i + 1);
        assert(next.drop_last() =~= pre);
        assert(next.last() == seg@);
        if seg.len() == 2 && seg[0] == '.' && seg[1] == '.' {
            assert(seg@ =~= seq!['.', '.']);
            assert(components_of(next) == components_of(pre).push(seg@));
            assert(components_of(next).last() == seq!['.', '.']);
            proof {
                lemma_components_prefix(views(segs@), i + 1);
            }
            return true;
        }
        assert(seg@ != seq!['.', '.']) by {
            if seg@.len() == 2 {
                assert(seg@[0] != '.' || seg@[1] != '.');
            }
        }
        assert(!components_of(next).contains(seq!['.', '.'])) by {
            if components_of(next) != components_of(pre) {
                assert(components_of(next) == components_of(pre).push(seg@));
                assert forall|k: int| 0 <= k < components_of(next).len() implies #[trigger] components_of(next)[k] != seq!['.', '.'] by {
                    if k < components_of(pre).len() {
                        assert(components_of(next)[k] == components_of(pre)[k]);
                    }
                }
            }
        }
        i = i + 1;
    }
    assert(views(segs@).subrange(0, segs@.len() as int) =~= views(segs@));
    false
}

proof fn lemma_components_prefix(segs: Seq<Seq<char>>, k: int)
    requires
        0 <= k <= segs.len(),
        components_of(segs.subrange(0, k)).contains(seq!['.', '.']),
    ensures
        components_of(segs).contains(seq!['.', '.']),
    decreases segs.len() - k,
{
    if k < segs.len() {
        let next = segs.subrange(0, k + 1);
        assert(next.drop_last() =~= segs.subrange(0, k));
        let w = choose|j: int| 0 <= j < components_of(segs.subrange(0, k)).len() && components_of(segs.subrange(0, k))[j] == seq!['.', '.'];
        if components_of(next) != components_of(segs.subrange(0, k)) {
            assert(components_of(next)[w] == components_of(segs.subrange(0, k))[w]);
        }
        assert(components_of(next).contains(seq!['.', '.']));
        lemma_components_prefix(segs, k + 1);
    } else {
        assert(segs.subrange(0, k) =~= segs);
    }
}

/// Judges `path` by the checks on file paths, given whether symbolic links
/// are allowed and whether `path` is one.
pub fn file_path_verdict(path: &str, allow_symlinks: bool, is_symlink: bool) -> (r: Result<(), String>)
    ensures
        match file_path_error(path@, allow_symlinks, is_symlink) {
            None => r is Ok,
            Some(m) => (r matches Err(e) && e@ == m),
        },
{
    let v = chars_of(path);
    if has_parent_component(&v) {
        return Err(message_with("Path traversal detected: ", path));
    }
    if v.len() > 0 && v[0] == '/' {
        return Err(message_with("Absolute paths are not allowed: ", path));
    }
    if !allow_symlinks && is_symlink {
        return Err(message_with("Symlinks are not allowed: ", path));
    }
    if path.len() > 260 {
        return Err(message_with("Path is too long (max 260 characters): ", path));
    }
    Ok(())
}

/// Checks `path` for safe use: no `..` component, not absolute, not a
/// symbolic link unless `allow_symlinks`, at most 260 bytes. Whether the
/// path is a link is asked of the disk only when links are not allowed.
pub fn validate_file_path(path: &str, allow_symlinks: bool) -> (r: Result<(), String>)
    ensures
        exists|link: bool|
            match #[trigger] file_path_error(path@, allow_symlinks, link) {
                None => r is Ok,
                Some(m) => (r matches Err(e) && e@ == m),
            },
{
    let link = if allow_symlinks { false } else { path_is_symlink(path) };
    let r = file_path_verdict(path, allow_symlinks, link);
    assert(match file_path_error(path@, allow_symlinks, link) {
        None => r is Ok,
        Some(m) => (r matches Err(e) && e@ == m),
    });
    r
}

/// A character that workspace patterns may not hold.
pub open spec fn is_forbidden_pattern_char(c: char) -> bool {
    c == '<' || c == '>' || c == '|' || c == ':' || c == '"' || c == '?'
}

/// The message for a workspace pattern that holds `..`, is absolute, or
/// holds a forbidden character; `None` for an acceptable one.
pub open spec fn workspace_pattern_error(p: Seq<char>) -> Option<Seq<char>> {
    if contains_seq(p, ".."@) {
        Some("Invalid workspace pattern (contains ..): "@ + p)
    } else if is_absolute(p) {
        Some("Absolute paths not allowed in workspace patterns: "@ + p)
    } else if exists|i: int| 0 <= i < p.len() && is_forbidden_pattern_char(#[trigger] p[i]) {
        Some("Invalid characters in workspace pattern: "@ + p)
    } else {
        None
    }
}

/// Checks a workspace glob pattern: no `..`, not absolute, none of
/// `< > | : " ?` (`*` is allowed).
pub fn validate_workspace_pattern(pattern: &str) -> (r: Result<(), String>)
    ensures
        match workspace_pattern_error(pattern@) {
            None => r is Ok,
            Some(m) => (r matches Err(e) && e@ == m),
        },
{
    let v = chars_of(pattern);
    if contains_exec(&v, &chars_of("..")) {
        return Err(message_with("Invalid workspace pattern (contains ..): ", pattern));
    }
    if v.len() > 0 && v[0] == '/' {
        return Err(message_with("Absolute paths not allowed in workspace patterns: ", pattern));
    }
    let mut i: usize = 0;
    while i < v.len()
        invariant
            i <= v@.len(),
            v@ == pattern@,
            !contains_seq(pattern@, ".."@),
            !is_absolute(pattern@),
            forall|j: int| 0 <= j < i ==> !is_forbidden_pattern_char(#[trigger] v@[j]),
        decreases v@.len() - i,
    {
        let c = v[i];
        if c == '<' || c == '>' || c == '|' || c == ':' || c == '"' || c == '?' {
            assert(is_forbidden_pattern_char(v@[i as int]));
            return Err(message_with("Invalid characters in workspace pattern: ", pattern));
        }
        i = i + 1;
    }
    Ok(())
}


/// What the disk shows of a path about to be touched: whether it exists and
/// is a symbolic link, and the same of the directory above it.
#[derive(Debug, Clone, Copy, PartialEq, Eq)]
pub struct LinkState {
    pub exists: bool,
    pub is_symlink: bool,
    pub parent_exists: bool,
    pub parent_is_symlink: bool,
}

/// Why `path` is not safe to touch, `None` when it is: a `..` component is
/// refused; unless links are allowed, so is an existing link, or an
/// existing link as the directory above the path.
pub open spec fn unsafe_path_reason(path: Seq<char>, allow_symlinks: bool, disk: LinkState) -> Option<Seq<char>> {
    if components_of(split(path, slash())).contains(seq!['.', '.']) {
        Some("Path traversal detected: "@ + path)
    } else if allow_symlinks {
        None
    } else if disk.exists && disk.is_symlink {
        Some("Symlinks are not allowed: "@ + path)
    } else {
        match parent_of(path) {
            Some(q) => if disk.parent_exists && disk.parent_is_symlink {
                Some("Symlinks are not allowed in parent directory: "@ + q)
            } else {
                None
            },
            None => None,
        }
    }
}

/// Judges whether `path` is safe to touch from what the disk showed (see
/// `unsafe_path_reason`).
pub fn safe_path_verdict(path: &str, allow_symlinks: bool, disk: LinkState) -> (r: Result<(), String>)
    ensures
        match unsafe_path_reason(path@, allow_symlinks, disk) {
            None => r is Ok,
            Some(m) => (r matches Err(e) && e@ == m),
        },
{
    let v = chars_of(path);
    if has_parent_component(&v) {
        return Err(message_with("Path traversal detected: ", path));
    }
    if allow_symlinks {
        return Ok(());
    }
    if disk.exists && disk.is_symlink {
        return Err(message_with("Symlinks are not allowed: ", path));
    }
    match parent_dir(path) {
        Some(q) => {
            if disk.parent_exists && disk.parent_is_symlink {
                Err(message_with("Symlinks are not allowed in parent directory: ", q.as_str()))
            } else {
                Ok(())
            }
        },
        None => Ok(()),
    }
}

/// Checks that `path` is safe to touch: no `..` component and, unless
/// `allow_symlinks`, neither the path nor the directory above it is an
/// existing symbolic link. Whatever the disk answered, the result is the
/// verdict of `safe_path_verdict` on some answers.
pub fn is_safe_path(path: &str, allow_symlinks: bool) -> (r: Result<(), String>)
    ensures
        exists|disk: LinkState|
            match #[trigger] unsafe_path_reason(path@, allow_symlinks, disk) {
                None => r is Ok,
                Some(m) => (r matches Err(e) && e@ == m),
            },
{
    let (parent_exists, parent_is_symlink) = match parent_dir(path) {
        Some(q) => (path_exists(q.as_str()), path_is_symlink(q.as_str())),
        None => (false, false),
    };
    let disk = LinkState {
        exists: path_exists(path),
        is_symlink: path_is_symlink(path),
        parent_exists,
        parent_is_symlink,
    };
    safe_path_verdict(path, allow_symlinks, disk)
}


/// Every line break of `replace_all(s, "\n", "\r\n")` follows a `\r`.
proof fn lemma_crlf_everywhere(s: Seq<char>)
    ensures
        forall|k: int|
            0 <= k < replace_all(s, "\n"@, "\r\n"@).len() && #[trigger] replace_all(s, "\n"@, "\r\n"@)[k]
                == '\n' ==> k > 0 && replace_all(s, "\n"@, "\r\n"@)[k - 1] == '\r',
    decreases s.len(),
{
    reveal_strlit("\n");
    reveal_strlit("\r\n");
    let r = replace_all(s, "\n"@, "\r\n"@);
    if s.len() >= 1 {
        let rest = replace_all(s.skip(1), "\n"@, "\r\n"@);
        lemma_crlf_everywhere(s.skip(1));
        if s.subrange(0, 1) == "\n"@ {
            assert(r == "\r\n"@ + rest);
            assert forall|k: int| 0 <= k < r.len() && #[trigger] r[k] == '\n' implies k > 0 && r[k - 1] == '\r' by {
                if k >= 2 {
                    assert(r[k] == rest[k - 2]);
                    if k - 2 > 0 {
                        assert(r[k - 1] == rest[k - 3]);
                    } else {
                        assert(r[k - 1] == '\n');
                    }
                }
            }
        } else {
            assert(s[0] != '\n') by {
                if s[0] == '\n' {
                    assert(s.subrange(0, 1) =~= "\n"@);
                }
            }
            assert(r == seq![s[0]] + rest);
            assert forall|k: int| 0 <= k < r.len() && #[trigger] r[k] == '\n' implies k > 0 && r[k - 1] == '\r' by {
                if k >= 1 {
                    assert(r[k] == rest[k - 1]);
                    if k - 1 > 0 {
                        assert(r[k - 1] == rest[k - 2]);
                    }
                }
            }
        }
    }
}

/// On Windows every line of normalised content ends in `\r\n`: each line
/// break follows a carriage return.
pub proof fn law_windows_lines_end_in_crlf(content: Seq<char>)
    ensures
        forall|k: int|
            0 <= k < line_endings_normalized(content, true).len() && #[trigger] line_endings_normalized(
                content,
                true,
            )[k] == '\n' ==> k > 0 && line_endings_normalized(content, true)[k - 1] == '\r',
{
    if !content.contains('\r') {
        lemma_crlf_everywhere(content);
    } else {
        lemma_crlf_everywhere(replace_all(content, "\r\n"@, "\n"@));
    }
}

} // verus!
