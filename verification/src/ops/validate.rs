//! The npm registry's package-name rules.

use vstd::prelude::*;
use vstd::string::*;
use vstd::utf8::encode_utf8;

use crate::text::{
    all_in_class, all_in_class_exec, chars_of, contains_char, contains_exec, contains_seq,
    in_class, in_class_exec, is_unicode_whitespace, trims_to_empty, trims_to_empty_exec,
    CharClass,
};

verus! {

/// The longest package name, in bytes, that the registry accepts.
pub const PKG_NAME_LENGTH: usize = 214;

/// `s[from..to]` matches `(?:[a-z0-9-*~][a-z0-9-*._~]*)?`.
pub open spec fn registry_scope_ok(s: Seq<char>, from: int, to: int) -> bool {
    from == to || (in_class(s[from], CharClass::NpmScopeFirst) && all_in_class(
        s,
        from + 1,
        to,
        CharClass::NpmScopeRest,
    ))
}

/// `s` matches
/// `^(?:(?:@(?:[a-z0-9-*~][a-z0-9-*._~]*)?/[a-z0-9-._~])|[a-z0-9-~])[a-z0-9-._~]*$`.
pub open spec fn registry_name_pattern(s: Seq<char>) -> bool {
    ||| (s.len() >= 1 && in_class(s[0], CharClass::NpmFirst) && all_in_class(
        s,
        1,
        s.len() as int,
        CharClass::NpmTail,
    ))
    ||| (s.len() > 0 && s[0] == '@' && exists|j: int|
        1 <= j && j + 1 < s.len() && #[trigger] s[j] == '/' && registry_scope_ok(s, 1, j)
            && all_in_class(s, j + 1, s.len() as int, CharClass::NpmTail))
}

/// A character that may follow the first one of a package name, scoped or
/// not: a lowercase letter, a digit, `-`, `.`, `_` or `~`.
pub open spec fn name_tail_char(c: char) -> bool {
    ('a' <= c && c <= 'z') || ('0' <= c && c <= '9') || c == '-' || c == '.' || c == '_' || c == '~'
}

/// A character that may start an unscoped package name: a lowercase
/// letter, a digit, `-` or `~`.
pub open spec fn name_first_char(c: char) -> bool {
    ('a' <= c && c <= 'z') || ('0' <= c && c <= '9') || c == '-' || c == '~'
}

/// A scope as it may stand between `@` and `/`: empty, or a lowercase
/// letter, digit, `-`, `*` or `~`, then any of those or `.` and `_`.
pub open spec fn scope_text_ok(sc: Seq<char>) -> bool {
    sc.len() == 0 || ({
        let c = sc[0];
        ('a' <= c && c <= 'z') || ('0' <= c && c <= '9') || c == '-' || c == '*' || c == '~'
    } && forall|i: int|
        1 <= i < sc.len() ==> ({
            let c = #[trigger] sc[i];
            ('a' <= c && c <= 'z') || ('0' <= c && c <= '9') || c == '-' || c == '*' || c == '.'
                || c == '_' || c == '~'
        }))
}

/// An unscoped name matches the registry's pattern exactly when it starts
/// with a lowercase letter, digit, `-` or `~` and goes on with lowercase
/// letters, digits, `-`, `.`, `_` and `~`.
pub proof fn law_unscoped_names(n: Seq<char>)
    requires
        n.len() == 0 || n[0] != '@',
    ensures
        registry_name_pattern(n) <==> (n.len() >= 1 && name_first_char(n[0]) && forall|i: int|
            1 <= i < n.len() ==> name_tail_char(#[trigger] n[i])),
{
    if n.len() >= 1 && name_first_char(n[0]) && forall|i: int|
        1 <= i < n.len() ==> name_tail_char(#[trigger] n[i]) {
        assert(all_in_class(n, 1, n.len() as int, CharClass::NpmTail)) by {
            assert forall|i: int| 1 <= i < n.len() implies in_class(#[trigger] n[i], CharClass::NpmTail) by {
                assert(name_tail_char(n[i]));
            }
        }
    }
    if registry_name_pattern(n) {
        assert forall|i: int| 1 <= i < n.len() implies name_tail_char(#[trigger] n[i]) by {
            assert(in_class(n[i], CharClass::NpmTail));
        }
    }
}

/// A scoped name `@scope/name`, whose scope holds no `/`, matches the
/// registry's pattern exactly when the scope is a valid one and `name` is
/// non-empty and made only of characters that may follow the first
/// character of any package name: the scope's `/` may be followed by `.`,
/// `_` and the other tail characters as well as by letters and digits.
pub proof fn law_scoped_names(sc: Seq<char>, n: Seq<char>)
    requires
        forall|i: int| 0 <= i < sc.len() ==> #[trigger] sc[i] != '/',
    ensures
        registry_name_pattern(seq!['@'] + sc + seq!['/'] + n) <==> (scope_text_ok(sc) && n.len()
            >= 1 && forall|i: int| 0 <= i < n.len() ==> name_tail_char(#[trigger] n[i])),
{
    let s = seq!['@'] + sc + seq!['/'] + n;
    let j: int = sc.len() as int + 1;
    assert(s[0] == '@');
    assert(s[j] == '/');
    assert forall|i: int| 1 <= i < j implies #[trigger] s[i] == sc[i - 1] by {}
    assert forall|i: int| j < i < s.len() implies #[trigger] s[i] == n[i - j - 1] by {}
    assert(!in_class(s[0], CharClass::NpmFirst));
    assert(registry_scope_ok(s, 1, j) == scope_text_ok(sc)) by {
        if sc.len() > 0 {
            assert(s[1] == sc[0]);
            if scope_text_ok(sc) {
                assert forall|i: int| 2 <= i < j implies in_class(#[trigger] s[i], CharClass::NpmScopeRest) by {
                    assert(s[i] == sc[i - 1]);
                }
            }
            if registry_scope_ok(s, 1, j) {
                assert forall|i: int| 1 <= i < sc.len() implies ({
                    let c = #[trigger] sc[i];
                    ('a' <= c && c <= 'z') || ('0' <= c && c <= '9') || c == '-' || c == '*' || c == '.'
                        || c == '_' || c == '~'
                }) by {
                    assert(s[i + 1] == sc[i]);
                    assert(in_class(s[i + 1], CharClass::NpmScopeRest));
                }
            }
        }
    }
    if scope_text_ok(sc) && n.len() >= 1 && forall|i: int| 0 <= i < n.len() ==> name_tail_char(#[trigger] n[i]) {
        assert(all_in_class(s, j + 1, s.len() as int, CharClass::NpmTail)) by {
            assert forall|i: int| j + 1 <= i < s.len() implies in_class(#[trigger] s[i], CharClass::NpmTail) by {
                assert(s[i] == n[i - j - 1]);
                assert(name_tail_char(n[i - j - 1]));
            }
        }
        assert(1 <= j && j + 1 < s.len() && s[j] == '/' && registry_scope_ok(s, 1, j) && all_in_class(
            s,
            j + 1,
            s.len() as int,
            CharClass::NpmTail,
        ));
    }
    if registry_name_pattern(s) {
        let k = choose|k: int|
            1 <= k && k + 1 < s.len() && #[trigger] s[k] == '/' && registry_scope_ok(s, 1, k)
                && all_in_class(s, k + 1, s.len() as int, CharClass::NpmTail);
        assert(k == j) by {
            if k < j {
                assert(s[k] == sc[k - 1]);
            } else if k > j {
                if j == 1 {
                    assert(!in_class(s[1], CharClass::NpmScopeFirst));
                } else {
                    assert(in_class(s[j], CharClass::NpmScopeRest));
                }
            }
        }
        assert forall|i: int| 0 <= i < n.len() implies name_tail_char(#[trigger] n[i]) by {
            assert(s[i + j + 1] == n[i]);
            assert(in_class(s[i + j + 1], CharClass::NpmTail));
        }
    }
}

/// Scoped and unscoped names share one rule after their start: a name
/// that may start an unscoped package name matches the pattern under any
/// scope exactly when it matches it alone.
pub proof fn law_scope_keeps_the_name_rule(sc: Seq<char>, n: Seq<char>)
    requires
        scope_text_ok(sc),
        n.len() >= 1,
        name_first_char(n[0]),
    ensures
        registry_name_pattern(seq!['@'] + sc + seq!['/'] + n) == registry_name_pattern(n),
{
    assert forall|i: int| 0 <= i < sc.len() implies #[trigger] sc[i] != '/' by {
        if i > 0 {
            assert(scope_text_ok(sc));
        }
    }
    law_scoped_names(sc, n);
    law_unscoped_names(n);
    if forall|i: int| 1 <= i < n.len() ==> name_tail_char(#[trigger] n[i]) {
        assert forall|i: int| 0 <= i < n.len() implies name_tail_char(#[trigger] n[i]) by {
            if i == 0 {
                assert(name_first_char(n[0]));
            }
        }
    }
}

/// The checks that a registry name must pass, in the order they are made.
#[derive(Debug, Clone, Copy, PartialEq, Eq, Structural)]
pub enum NameCheck {
    /// The name is white space only.
    Empty,
    /// The name is longer than `PKG_NAME_LENGTH` bytes.
    TooLong,
    /// The name starts with `.` or `_`.
    BadStart,
    /// The name holds `..`, or an `@` with no `/`.
    BadSequence,
    /// The name does not match the registry pattern.
    BadCharacters,
}

/// The first check that `name` fails, or `None` when it passes them all.
pub open spec fn registry_name_failure(s: Seq<char>) -> Option<NameCheck> {
    if trims_to_empty(s) {
        Some(NameCheck::Empty)
    } else if (encode_utf8(s).len() as usize) > PKG_NAME_LENGTH {
        Some(NameCheck::TooLong)
    } else if s[0] == '.' || s[0] == '_' {
        Some(NameCheck::BadStart)
    } else if contains_seq(s, ".."@) || (s.contains('@') && !s.contains('/')) {
        Some(NameCheck::BadSequence)
    } else if !registry_name_pattern(s) {
        Some(NameCheck::BadCharacters)
    } else {
        None
    }
}

/// An unscoped name that starts with a lowercase letter, digit, `-` or `~`,
/// goes on with lowercase letters, digits, `-`, `.`, `_` and `~`, holds no
/// `..` and fits in the length limit passes every registry check.
pub proof fn law_plain_names_pass(n: Seq<char>)
    requires
        n.len() >= 1,
        name_first_char(n[0]),
        forall|i: int| 1 <= i < n.len() ==> name_tail_char(#[trigger] n[i]),
        !contains_seq(n, ".."@),
        encode_utf8(n).len() <= PKG_NAME_LENGTH,
    ensures
        registry_name_failure(n) is None,
{
    assert(!is_unicode_whitespace(n[0]));
    assert(!n.contains('@')) by {
        if n.contains('@') {
            let i = choose|i: int| 0 <= i < n.len() && n[i] == '@';
            if i > 0 {
                assert(name_tail_char(n[i]));
            }
        }
    }
    law_unscoped_names(n);
}

/// A scoped name `@scope/name` with a valid scope and a non-empty name made
/// of lowercase letters, digits, `-`, `.`, `_` and `~` passes every registry
/// check when it holds no `..` and fits in the length limit: the name after
/// the `/` follows the same character rule as the rest of an unscoped name.
pub proof fn law_scoped_names_pass(sc: Seq<char>, n: Seq<char>)
    requires
        scope_text_ok(sc),
        n.len() >= 1,
        forall|i: int| 0 <= i < n.len() ==> name_tail_char(#[trigger] n[i]),
        !contains_seq(seq!['@'] + sc + seq!['/'] + n, ".."@),
        encode_utf8(seq!['@'] + sc + seq!['/'] + n).len() <= PKG_NAME_LENGTH,
    ensures
        registry_name_failure(seq!['@'] + sc + seq!['/'] + n) is None,
{
    let s = seq!['@'] + sc + seq!['/'] + n;
    let j: int = sc.len() as int + 1;
    assert(s[0] == '@');
    assert(s[j] == '/');
    assert(!is_unicode_whitespace(s[0]));
    assert(s.contains('@'));
    assert(s.contains('/'));
    assert forall|i: int| 0 <= i < sc.len() implies #[trigger] sc[i] != '/' by {
        if i > 0 {
            assert(scope_text_ok(sc));
        }
    }
    law_scoped_names(sc, n);
}

/// Whether `v` matches the registry pattern.
pub fn registry_name_pattern_exec(v: &Vec<char>) -> (b: bool)
    ensures
        b == registry_name_pattern(v@),
{
    if v.len() > 0 && v[0] == '@' {
        assert(!in_class(v@[0], CharClass::NpmFirst));
        let mut j: usize = 1;
        while j < v.len() && v[j] != '/'
            invariant
                1 <= j <= v@.len(),
                v@[0] == '@',
                forall|k: int| 1 <= k < j ==> v@[k] != '/',
            decreases v@.len() - j,
        {
            j = j + 1;
        }
        if j >= v.len() - 1 {
            assert forall|k: int|
                1 <= k && k + 1 < v@.len() && #[trigger] v@[k] == '/' implies false by {
                if k < j {
                } else if k > j {
                }
            }
            return false;
        }
        let scope_ok = j == 1 || (in_class_exec(v[1], CharClass::NpmScopeFirst)
            && all_in_class_exec(v, 2, j, CharClass::NpmScopeRest));
        let ok = scope_ok && all_in_class_exec(v, j + 1, v.len(), CharClass::NpmTail);
        assert forall|k: int|
            1 <= k && k + 1 < v@.len() && #[trigger] v@[k] == '/' && registry_scope_ok(
                v@,
                1,
                k,
            ) implies k == j by {
            if k > j {
                if j == 1 {
                    assert(!in_class(v@[1], CharClass::NpmScopeFirst));
                } else {
                    assert(in_class(v@[j as int], CharClass::NpmScopeRest));
                }
            }
        }
        ok
    } else {
        v.len() >= 1 && in_class_exec(v[0], CharClass::NpmFirst) && all_in_class_exec(
            v,
            1,
            v.len(),
            CharClass::NpmTail,
        )
    }
}

/// The first check that `name` fails, or `None` when it passes them all.
pub fn registry_name_check(name: &str) -> (r: Option<NameCheck>)
    ensures
        r == registry_name_failure(name@),
{
    let v = chars_of(name);
    if trims_to_empty_exec(&v) {
        return Some(NameCheck::Empty);
    }
    if name.len() > PKG_NAME_LENGTH {
        return Some(NameCheck::TooLong);
    }
    if v[0] == '.' || v[0] == '_' {
        return Some(NameCheck::BadStart);
    }
    if contains_exec(&v, &chars_of("..")) || (contains_char(&v, '@') && !contains_char(&v, '/')) {
        return Some(NameCheck::BadSequence);
    }
    if !registry_name_pattern_exec(&v) {
        return Some(NameCheck::BadCharacters);
    }
    None
}

/// The message given for a failed check.
pub open spec fn registry_name_message(check: NameCheck) -> Seq<char> {
    match check {
        NameCheck::Empty => "Package name cannot be empty"@,
        NameCheck::TooLong => "Package name length exceeds 214 characters"@,
        NameCheck::BadStart => "Package name cannot start with a period or underscore"@,
        NameCheck::BadSequence => "Package name cannot contain double periods or '@' without a scope"@,
        NameCheck::BadCharacters => "Package name contains invalid characters"@,
    }
}

/// Checks `name` against the npm registry's rules (not blank, at most 214
/// bytes, not starting with `.` or `_`, no `..`, no `@` without `/`, and
/// the registry's character pattern), and says which rule failed first.
pub fn validate_pkg_name(name: &str) -> (r: Result<(), String>)
    ensures
        r is Ok <==> registry_name_failure(name@) is None,
        r matches Err(m) ==> registry_name_failure(name@) matches Some(c) && m@
            == registry_name_message(c),
{
    match registry_name_check(name) {
        None => Ok(()),
        Some(c) => {
            let m = match c {
                NameCheck::Empty => "Package name cannot be empty",
                NameCheck::TooLong => "Package name length exceeds 214 characters",
                NameCheck::BadStart => "Package name cannot start with a period or underscore",
                NameCheck::BadSequence => "Package name cannot contain double periods or '@' without a scope",
                NameCheck::BadCharacters => "Package name contains invalid characters",
            };
            Err(String::from_str(m))
        },
    }
}

} // verus!
