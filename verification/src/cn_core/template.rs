//! Project templates: their manifest, its validation and rendering.

use vstd::prelude::*;
use vstd::string::*;

use crate::cn_core::{Error, ProjectType, Result};
use crate::ops::replace::{keys_distinct, lemma_map_of_push, lemma_map_of_update, map_of};
use crate::paths::{slash, slash_vec};
use crate::text::{
    chars_of, decimal, digit_char, ends_with, join, lemma_split_join, first_some, lemma_first_some_at, occurs_at_exec, replace_all,
    replace_str, split, split_exec, starts_with, string_from_chars, sub_chars, to_owned_string,
    views,
};

verus! {

/// Template configuration
#[derive(Debug, Clone)]
pub struct TemplateConfig {
    /// Template name
    pub name: String,
    /// Template description
    pub description: String,
    /// Template version
    pub version: String,
    /// Supported project types
    pub project_types: Vec<ProjectType>,
    /// Template files, by key
    pub files: Vec<(String, TemplateFile)>,
    /// Template dependencies: name and version requirement
    pub dependencies: Vec<(String, String)>,
    /// Template dev dependencies: name and version requirement
    pub dev_dependencies: Vec<(String, String)>,
    /// Template scripts: name and command
    pub scripts: Vec<(String, String)>,
}

/// Template file configuration
#[derive(Debug, Clone)]
pub struct TemplateFile {
    /// File path relative to project root
    pub path: String,
    /// Whether the file is executable
    pub executable: bool,
    /// File content template
    pub content: String,
}

/// The numeric value of a string of decimal digits.
pub open spec fn digits_value(d: Seq<char>) -> nat
    decreases d.len(),
{
    if d.len() == 0 {
        0
    } else {
        digits_value(d.drop_last()) * 10 + (d.last() as nat - '0' as nat) as nat
    }
}

pub open spec fn all_digits(d: Seq<char>) -> bool {
    forall|i: int| 0 <= i < d.len() ==> '0' <= #[trigger] d[i] && d[i] <= '9'
}

/// `s` is accepted by `str::parse::<u32>`: an optional `+`, then one or
/// more decimal digits whose value fits in 32 bits.
pub open spec fn parses_u32(s: Seq<char>) -> bool {
    let d = if s.len() > 0 && s[0] == '+' {
        s.skip(1)
    } else {
        s
    };
    d.len() > 0 && all_digits(d) && digits_value(d) <= u32::MAX
}

/// Whether `v[from..to]` is accepted by `str::parse::<u32>`.
pub fn parses_u32_exec(v: &Vec<char>) -> (b: bool)
    ensures
        b == parses_u32(v@),
{
    let start: usize = if v.len() > 0 && v[0] == '+' {
        1
    } else {
        0
    };
    let ghost d = if v@.len() > 0 && v@[0] == '+' {
        v@.skip(1)
    } else {
        v@
    };
    assert(d =~= v@.skip(start as int));
    if start == v.len() {
        return false;
    }
    let mut acc: u64 = 0;
    let mut overflow = false;
    let mut i = start;
    assert(v@.subrange(start as int, start as int) =~= Seq::<char>::empty());
    while i < v.len()
        invariant
            start <= i <= v@.len(),
            d =~= v@.skip(start as int),
            d == (if v@.len() > 0 && v@[0] == '+' {
                v@.skip(1)
            } else {
                v@
            }),
            all_digits(v@.subrange(start as int, i as int)),
            !overflow ==> acc == digits_value(v@.subrange(start as int, i as int)) && acc
                <= u32::MAX,
            overflow ==> digits_value(v@.subrange(start as int, i as int)) > u32::MAX,
        decreases v@.len() - i,
    {
        let c = v[i];
        if !('0' <= c && c <= '9') {
            assert(!all_digits(d)) by {
                assert(d[i - start] == c);
                assert(!('0' <= d[i - start] && d[i - start] <= '9'));
            }
            return false;
        }
        let ghost pre = v@.subrange(start as int, i as int);
        let ghost next = v@.subrange(start as int, i + 1);
        assert(next.drop_last() =~= pre);
        assert(next.last() == c);
        let dv = (c as u32 - '0' as u32) as u64;
        if !overflow {
            let n = acc * 10 + dv;
            if n > 0xffff_ffff {
                overflow = true;
            } else {
                acc = n;
            }
        }
        i = i + 1;
        assert(all_digits(next)) by {
            assert forall|k: int| 0 <= k < next.len() implies '0' <= #[trigger] next[k] && next[k]
                <= '9' by {
                if k < pre.len() {
                    assert(next[k] == pre[k]);
                }
            }
        }
    }
    assert(v@.subrange(start as int, v@.len() as int) =~= d);
    !overflow
}

/// `s` is `x.y.z` with three numbers that `str::parse::<u32>` accepts.
pub open spec fn is_semver(s: Seq<char>) -> bool {
    let parts = split(s, seq!['.']);
    parts.len() == 3 && forall|i: int| 0 <= i < 3 ==> parses_u32(#[trigger] parts[i])
}

/// The value of the digit that `digit_char` writes for `d`.
proof fn lemma_digit_char(d: nat)
    requires
        d < 10,
    ensures
        '0' <= digit_char(d) && digit_char(d) <= '9',
        digit_char(d) as nat - '0' as nat == d,
{
}

/// The decimal text of `n` is a non-empty run of digits worth `n`.
proof fn lemma_decimal_text(n: nat)
    ensures
        decimal(n).len() > 0,
        all_digits(decimal(n)),
        digits_value(decimal(n)) == n,
        decimal(n)[0] != '+',
        !decimal(n).contains('.'),
    decreases n,
{
    if n < 10 {
        lemma_digit_char(n);
        let d = decimal(n);
        assert(d.drop_last() =~= Seq::<char>::empty());
        assert(d.last() == digit_char(n));
        assert(digits_value(Seq::<char>::empty()) == 0);
        assert(digits_value(d) == digits_value(d.drop_last()) * 10 + (d.last() as nat - '0' as nat) as nat);
    } else {
        let q = n / 10;
        let r = n % 10;
        lemma_decimal_text(q);
        lemma_digit_char(r);
        let d = decimal(n);
        assert(d == decimal(q).push(digit_char(r)));
        assert(d.drop_last() =~= decimal(q));
        assert(d.last() == digit_char(r));
        assert(digits_value(d) == digits_value(d.drop_last()) * 10 + (d.last() as nat - '0' as nat) as nat);
        assert(n == q * 10 + r) by (nonlinear_arith)
            requires
                q == n / 10,
                r == n % 10,
        ;
        assert(all_digits(d)) by {
            assert forall|i: int| 0 <= i < d.len() implies '0' <= #[trigger] d[i] && d[i] <= '9' by {
                if i < decimal(q).len() {
                    assert(d[i] == decimal(q)[i]);
                }
            }
        }
        assert(d[0] == decimal(q)[0]);
        assert(!d.contains('.')) by {
            if d.contains('.') {
                let i = choose|i: int| 0 <= i < d.len() && d[i] == '.';
                if i < decimal(q).len() {
                    assert(decimal(q)[i] == '.');
                }
            }
        }
    }
}

/// `str::parse::<u32>` accepts the decimal text of every number up to
/// `u32::MAX`, and of no larger number.
pub proof fn law_decimal_text_parses_as_u32(n: nat)
    ensures
        parses_u32(decimal(n)) <==> n <= u32::MAX,
{
    lemma_decimal_text(n);
}

/// A run of `k` zeros is a run of digits worth nothing.
proof fn lemma_zeros_value(k: nat)
    ensures
        all_digits(Seq::new(k, |i: int| '0')),
        digits_value(Seq::new(k, |i: int| '0')) == 0,
    decreases k,
{
    let z = Seq::new(k, |i: int| '0');
    if k > 0 {
        lemma_zeros_value((k - 1) as nat);
        assert(z.drop_last() =~= Seq::new((k - 1) as nat, |i: int| '0'));
    }
}

/// Zeros in front of a run of digits leave its value as it is.
proof fn lemma_zero_padding_value(k: nat, d: Seq<char>)
    ensures
        digits_value(Seq::new(k, |i: int| '0') + d) == digits_value(d),
    decreases d.len(),
{
    let z = Seq::new(k, |i: int| '0');
    if d.len() == 0 {
        lemma_zeros_value(k);
        assert(z + d =~= z);
    } else {
        lemma_zero_padding_value(k, d.drop_last());
        assert((z + d).drop_last() =~= z + d.drop_last());
        assert((z + d).last() == d.last());
    }
}

/// `str::parse::<u32>` reads the decimal text of a number the same way
/// behind any run of leading zeros and behind a `+`: it accepts it exactly
/// when the number fits in 32 bits.
pub proof fn law_padded_decimal_text_parses_as_u32(k: nat, n: nat)
    ensures
        parses_u32(Seq::new(k, |i: int| '0') + decimal(n)) <==> n <= u32::MAX,
        parses_u32(seq!['+'] + Seq::new(k, |i: int| '0') + decimal(n)) <==> n <= u32::MAX,
{
    let z = Seq::new(k, |i: int| '0');
    let d = z + decimal(n);
    lemma_decimal_text(n);
    lemma_zeros_value(k);
    lemma_zero_padding_value(k, decimal(n));
    assert(all_digits(d)) by {
        assert forall|i: int| 0 <= i < d.len() implies '0' <= #[trigger] d[i] && d[i] <= '9' by {
            if i < k {
                assert(d[i] == z[i]);
            } else {
                assert(d[i] == decimal(n)[i - k]);
            }
        }
    }
    if k > 0 {
        assert(d[0] == '0');
    } else {
        assert(d[0] == decimal(n)[0]);
    }
    assert((seq!['+'] + d).skip(1) =~= d);
    assert(seq!['+'] + z + decimal(n) =~= seq!['+'] + d);
}

/// What `str::parse::<u32>` accepts is digits only, after at most one
/// leading `+`, and at least one of them.
pub proof fn law_u32_text_is_digits(s: Seq<char>)
    ensures
        parses_u32(s) ==> s.len() > 0 && !(s.len() == 1 && s[0] == '+') && forall|i: int|
            0 <= i < s.len() ==> (i == 0 && s[i] == '+') || ('0' <= #[trigger] s[i] && s[i] <= '9'),
{
    if parses_u32(s) {
        if s[0] == '+' {
            let d = s.skip(1);
            assert forall|i: int| 0 <= i < s.len() implies (i == 0 && s[i] == '+') || ('0' <= #[trigger] s[i]
                && s[i] <= '9') by {
                if i > 0 {
                    assert(s[i] == d[i - 1]);
                }
            }
        }
    }
}

/// A version `a.b.c` written with decimal numbers is accepted exactly
/// when each of the three fits in 32 bits.
pub proof fn law_numeric_versions_are_semver(a: nat, b: nat, c: nat)
    ensures
        is_semver(decimal(a) + seq!['.'] + decimal(b) + seq!['.'] + decimal(c)) <==> (a <= u32::MAX
            && b <= u32::MAX && c <= u32::MAX),
{
    lemma_decimal_text(a);
    lemma_decimal_text(b);
    lemma_decimal_text(c);
    let parts = seq![decimal(a), decimal(b), decimal(c)];
    assert forall|i: int| 0 <= i < parts.len() implies !(#[trigger] parts[i]).contains('.') by {
        if i == 0 {
        } else if i == 1 {
        } else {
        }
    }
    lemma_split_join(parts, '.');
    assert(parts.skip(1) =~= seq![decimal(b), decimal(c)]);
    assert(parts.skip(1).skip(1) =~= seq![decimal(c)]);
    assert(join(parts.skip(1).skip(1), seq!['.']) == decimal(c));
    assert(join(parts.skip(1), seq!['.']) == decimal(b) + seq!['.'] + decimal(c));
    assert(join(parts, seq!['.']) == decimal(a) + seq!['.'] + (decimal(b) + seq!['.'] + decimal(c)));
    assert(join(parts, seq!['.']) =~= decimal(a) + seq!['.'] + decimal(b) + seq!['.'] + decimal(c));
}

/// A version written with decimal numbers behind a prefix that starts
/// with no digit, `+` or `.` is not itself a version.
proof fn lemma_prefixed_not_semver(pre: Seq<char>, a: nat, b: nat, c: nat)
    requires
        pre.len() >= 1,
        !('0' <= pre[0] && pre[0] <= '9'),
        pre[0] != '+',
        !pre.contains('.'),
    ensures
        !is_semver(pre + decimal(a) + seq!['.'] + decimal(b) + seq!['.'] + decimal(c)),
{
    lemma_decimal_text(a);
    lemma_decimal_text(b);
    lemma_decimal_text(c);
    let first = pre + decimal(a);
    assert(!first.contains('.')) by {
        if first.contains('.') {
            let i = choose|i: int| 0 <= i < first.len() && first[i] == '.';
            if i < pre.len() {
                assert(pre[i] == '.');
            } else {
                assert(decimal(a)[i - pre.len()] == '.');
            }
        }
    }
    let parts = seq![first, decimal(b), decimal(c)];
    assert forall|i: int| 0 <= i < parts.len() implies !(#[trigger] parts[i]).contains('.') by {
        if i == 0 {
        } else if i == 1 {
        } else {
        }
    }
    lemma_split_join(parts, '.');
    assert(parts.skip(1) =~= seq![decimal(b), decimal(c)]);
    assert(parts.skip(1).skip(1) =~= seq![decimal(c)]);
    assert(join(parts.skip(1).skip(1), seq!['.']) == decimal(c));
    assert(join(parts.skip(1), seq!['.']) == decimal(b) + seq!['.'] + decimal(c));
    assert(join(parts, seq!['.']) == first + seq!['.'] + (decimal(b) + seq!['.'] + decimal(c)));
    assert(join(parts, seq!['.']) =~= pre + decimal(a) + seq!['.'] + decimal(b) + seq!['.'] + decimal(c));
    assert(first[0] == pre[0]);
    assert(!parses_u32(first)) by {
        if first.len() > 0 && first[0] == '+' {
        } else {
            assert(!('0' <= first[0] && first[0] <= '9'));
        }
    }
}

/// A caret, tilde or `>=` range on a version `a.b.c` written with decimal
/// numbers is an npm version specifier exactly when each of the three
/// fits in 32 bits.
pub proof fn law_numeric_ranges_are_npm_versions(a: nat, b: nat, c: nat)
    ensures
        npm_version_ok(seq!['^'] + decimal(a) + seq!['.'] + decimal(b) + seq!['.'] + decimal(c)) <==> (
        a <= u32::MAX && b <= u32::MAX && c <= u32::MAX),
        npm_version_ok(seq!['~'] + decimal(a) + seq!['.'] + decimal(b) + seq!['.'] + decimal(c)) <==> (
        a <= u32::MAX && b <= u32::MAX && c <= u32::MAX),
        npm_version_ok(seq!['>', '='] + decimal(a) + seq!['.'] + decimal(b) + seq!['.'] + decimal(c))
            <==> (a <= u32::MAX && b <= u32::MAX && c <= u32::MAX),
{
    law_numeric_versions_are_semver(a, b, c);
    let v = decimal(a) + seq!['.'] + decimal(b) + seq!['.'] + decimal(c);
    lemma_decimal_text(a);
    let caret = seq!['^'] + decimal(a) + seq!['.'] + decimal(b) + seq!['.'] + decimal(c);
    let tilde = seq!['~'] + decimal(a) + seq!['.'] + decimal(b) + seq!['.'] + decimal(c);
    let ge = seq!['>', '='] + decimal(a) + seq!['.'] + decimal(b) + seq!['.'] + decimal(c);
    assert(caret.skip(1) =~= v);
    assert(tilde.skip(1) =~= v);
    assert(ge.skip(2) =~= v);
    assert(caret.subrange(0, 1) =~= seq!['^']);
    assert(tilde.subrange(0, 1) =~= seq!['~']);
    assert(ge.subrange(0, 2) =~= seq!['>', '=']);
    lemma_prefixed_not_semver(seq!['^'], a, b, c);
    lemma_prefixed_not_semver(seq!['~'], a, b, c);
    lemma_prefixed_not_semver(seq!['>', '='], a, b, c);
    assert(!starts_with(tilde, seq!['^'])) by {
        assert(tilde.subrange(0, 1)[0] == '~');
    }
    assert(!starts_with(ge, seq!['^'])) by {
        assert(ge.subrange(0, 1)[0] == '>');
    }
    assert(!starts_with(ge, seq!['~'])) by {
        assert(ge.subrange(0, 1)[0] == '>');
    }
    assert(!starts_with(caret, seq!['>', '='])) by {
        assert(caret.subrange(0, 2)[0] == '^');
    }
    assert(!starts_with(tilde, seq!['>', '='])) by {
        assert(tilde.subrange(0, 2)[0] == '~');
    }
}

fn dot_vec() -> (v: Vec<char>)
    ensures
        v@ == seq!['.'],
{
    let mut v = Vec::new();
    v.push('.');
    assert(v@ =~= seq!['.']);
    v
}

fn all_parse_u32(parts: &Vec<Vec<char>>) -> (b: bool)
    ensures
        b == forall|i: int| 0 <= i < parts@.len() ==> parses_u32(#[trigger] views(parts@)[i]),
{
    let mut i: usize = 0;
    while i < parts.len()
        invariant
            i <= parts@.len(),
            forall|j: int| 0 <= j < i ==> parses_u32(#[trigger] views(parts@)[j]),
        decreases parts@.len() - i,
    {
        assert(views(parts@)[i as int] == parts@[i as int]@);
        if !parses_u32_exec(&parts[i]) {
            return false;
        }
        i = i + 1;
    }
    true
}

fn is_semver_chars(v: &Vec<char>) -> (b: bool)
    ensures
        b == is_semver(v@),
{
    let parts = split_exec(v, &dot_vec());
    parts.len() == 3 && all_parse_u32(&parts)
}

/// Whether `version` is a plain `x.y.z` semantic version.
pub fn is_valid_semver(version: &str) -> (b: bool)
    ensures
        b == is_semver(version@),
{
    is_semver_chars(&chars_of(version))
}

/// `s` is an npm version specifier that templates accept: a semantic
/// version, one behind `^`, `~` or `>=`, the wildcard `*`, or an x-range
/// `N.x` / `N.N.x`.
pub open spec fn npm_version_ok(s: Seq<char>) -> bool {
    if s.len() == 0 {
        false
    } else if is_semver(s) {
        true
    } else if starts_with(s, seq!['^']) || starts_with(s, seq!['~']) || starts_with(
        s,
        seq!['>', '='],
    ) {
        is_semver(
            if starts_with(s, seq!['>', '=']) {
                s.skip(2)
            } else {
                s.skip(1)
            },
        )
    } else if s == seq!['*'] {
        true
    } else if ends_with(s, seq!['.', 'x']) {
        let parts = split(s.subrange(0, s.len() - 2), seq!['.']);
        (parts.len() == 1 || parts.len() == 2) && forall|i: int|
            0 <= i < parts.len() ==> parses_u32(#[trigger] parts[i])
    } else {
        false
    }
}

/// An x-range `a.x` or `a.b.x` written with decimal numbers is an npm
/// version specifier exactly when each of its numbers fits in 32 bits.
pub proof fn law_numeric_x_ranges_are_npm_versions(a: nat, b: nat)
    ensures
        npm_version_ok(decimal(a) + seq!['.', 'x']) <==> a <= u32::MAX,
        npm_version_ok(decimal(a) + seq!['.'] + decimal(b) + seq!['.', 'x']) <==> (a <= u32::MAX
            && b <= u32::MAX),
{
    lemma_decimal_text(a);
    lemma_decimal_text(b);
    let x = seq!['x'];
    assert(!x.contains('.')) by {
        if x.contains('.') {
            let i = choose|i: int| 0 <= i < x.len() && x[i] == '.';
            assert(x[i] == 'x');
        }
    }
    assert(!parses_u32(x)) by {
        assert(!('0' <= x[0] && x[0] <= '9'));
    }
    let s1 = decimal(a) + seq!['.', 'x'];
    let p1 = seq![decimal(a), x];
    assert forall|i: int| 0 <= i < p1.len() implies !(#[trigger] p1[i]).contains('.') by {
        if i == 0 {
        } else {
        }
    }
    lemma_split_join(p1, '.');
    assert(p1.skip(1) =~= seq![x]);
    assert(join(p1.skip(1), seq!['.']) == x);
    assert(join(p1, seq!['.']) == decimal(a) + seq!['.'] + x);
    assert(join(p1, seq!['.']) =~= s1);
    assert(!is_semver(s1));
    assert(s1.subrange(0, 1)[0] == decimal(a)[0]);
    assert(s1.subrange(0, 2)[0] == decimal(a)[0]);
    assert(s1 != seq!['*']) by {
        if s1 == seq!['*'] {
            assert(s1.len() >= 2);
        }
    }
    assert(s1.subrange(s1.len() - 2, s1.len() as int) =~= seq!['.', 'x']);
    let q1 = seq![decimal(a)];
    lemma_split_join(q1, '.');
    assert(s1.subrange(0, s1.len() - 2) =~= decimal(a));
    assert(join(q1, seq!['.']) == decimal(a));
    assert(split(decimal(a), seq!['.']) =~= q1);
    let s2 = decimal(a) + seq!['.'] + decimal(b) + seq!['.', 'x'];
    let p2 = seq![decimal(a), decimal(b), x];
    assert forall|i: int| 0 <= i < p2.len() implies !(#[trigger] p2[i]).contains('.') by {
        if i == 0 {
        } else if i == 1 {
        } else {
        }
    }
    lemma_split_join(p2, '.');
    assert(p2.skip(1) =~= seq![decimal(b), x]);
    assert(p2.skip(1).skip(1) =~= seq![x]);
    assert(join(p2.skip(1), seq!['.']) =~= decimal(b) + seq!['.', 'x']);
    assert(join(p2, seq!['.']) =~= s2);
    assert(!is_semver(s2)) by {
        assert(split(s2, seq!['.'])[2] == x);
    }
    assert(s2.subrange(0, 1)[0] == decimal(a)[0]);
    assert(s2.subrange(0, 2)[0] == decimal(a)[0]);
    assert(s2 != seq!['*']) by {
        if s2 == seq!['*'] {
            assert(s2.len() >= 2);
        }
    }
    assert(s2.subrange(s2.len() - 2, s2.len() as int) =~= seq!['.', 'x']);
    let q2 = seq![decimal(a), decimal(b)];
    assert forall|i: int| 0 <= i < q2.len() implies !(#[trigger] q2[i]).contains('.') by {
        if i == 0 {
        } else {
        }
    }
    lemma_split_join(q2, '.');
    assert(q2.skip(1) =~= seq![decimal(b)]);
    assert(join(q2.skip(1), seq!['.']) == decimal(b));
    assert(s2.subrange(0, s2.len() - 2) =~= decimal(a) + seq!['.'] + decimal(b));
    assert(join(q2, seq!['.']) =~= decimal(a) + seq!['.'] + decimal(b));
    assert(split(decimal(a) + seq!['.'] + decimal(b), seq!['.']) == q2);
}

/// Whether `version` is an npm version specifier that templates accept.
pub fn is_valid_npm_version(version: &str) -> (b: bool)
    ensures
        b == npm_version_ok(version@),
{
    let v = chars_of(version);
    if v.len() == 0 {
        return false;
    }
    if is_semver_chars(&v) {
        return true;
    }
    let ge = v.len() >= 2 && v[0] == '>' && v[1] == '=';
    assert(ge == starts_with(v@, seq!['>', '='])) by {
        if v@.len() >= 2 {
            assert(v@.subrange(0, 2) =~= seq![v@[0], v@[1]]);
        }
    }
    assert(starts_with(v@, seq!['^']) == (v@[0] == '^')) by {
        assert(v@.subrange(0, 1) =~= seq![v@[0]]);
        if v@[0] != '^' {
            assert(seq![v@[0]][0] != seq!['^'][0]);
        }
    }
    assert(starts_with(v@, seq!['~']) == (v@[0] == '~')) by {
        assert(v@.subrange(0, 1) =~= seq![v@[0]]);
        if v@[0] != '~' {
            assert(seq![v@[0]][0] != seq!['~'][0]);
        }
    }
    if v[0] == '^' || v[0] == '~' || ge {
        let from: usize = if ge {
            2
        } else {
            1
        };
        let rest = sub_chars(&v, from, v.len());
        assert(rest@ =~= v@.skip(from as int));
        return is_semver_chars(&rest);
    }
    if v.len() == 1 && v[0] == '*' {
        assert(v@ =~= seq!['*']);
        return true;
    }
    assert(v@ != seq!['*']) by {
        if v@.len() == 1 {
            assert(v@[0] != seq!['*'][0]);
        }
    }
    let n = v.len();
    let x = n >= 2 && v[n - 2] == '.' && v[n - 1] == 'x';
    assert(x == ends_with(v@, seq!['.', 'x'])) by {
        if n >= 2 {
            assert(v@.subrange(n - 2, n as int) =~= seq![v@[n - 2], v@[n - 1]]);
        }
    }
    if x {
        let base = sub_chars(&v, 0, n - 2);
        let parts = split_exec(&base, &dot_vec());
        return (parts.len() == 1 || parts.len() == 2) && all_parse_u32(&parts);
    }
    false
}

/// `p` has a `..` component.
pub open spec fn has_parent_component(p: Seq<char>) -> bool {
    split(p, slash()).contains(seq!['.', '.'])
}

/// What `validate` says of a template file.
pub open spec fn file_error(f: TemplateFile) -> Option<Seq<char>> {
    if f.path@.len() == 0 {
        Some("Empty path for file '"@ + f.path@ + "'"@)
    } else if has_parent_component(f.path@) {
        Some("Path traversal not allowed: "@ + f.path@)
    } else {
        None
    }
}

/// What `validate` says of a dependency (or, with `dev`, a dev dependency).
pub open spec fn dependency_error(dev: bool, name: Seq<char>, version: Seq<char>) -> Option<
    Seq<char>,
> {
    if name.len() == 0 {
        Some(
            if dev {
                "Dev dependency name cannot be empty"@
            } else {
                "Dependency name cannot be empty"@
            },
        )
    } else if !npm_version_ok(version) {
        Some(
            (if dev {
                "Invalid version for dev dependency '"@
            } else {
                "Invalid version for dependency '"@
            }) + name + "': "@ + version,
        )
    } else {
        None
    }
}

pub open spec fn file_errors(files: Seq<(String, TemplateFile)>) -> Seq<Option<Seq<char>>> {
    files.map_values(|f: (String, TemplateFile)| file_error(f.1))
}

pub open spec fn dependency_errors(dev: bool, deps: Seq<(String, String)>) -> Seq<
    Option<Seq<char>>,
> {
    deps.map_values(|d: (String, String)| dependency_error(dev, d.0@, d.1@))
}

/// The message of the first rule that `t` breaks, in the order `validate`
/// checks them, or `None` when `t` is valid.
pub open spec fn template_failure(t: TemplateConfig) -> Option<Seq<char>> {
    if t.name@.len() == 0 {
        Some("Template name cannot be empty"@)
    } else if !is_semver(t.version@) {
        Some("Invalid template version: "@ + t.version@)
    } else if first_some(file_errors(t.files@)) is Some {
        first_some(file_errors(t.files@))
    } else if first_some(dependency_errors(false, t.dependencies@)) is Some {
        first_some(dependency_errors(false, t.dependencies@))
    } else {
        first_some(dependency_errors(true, t.dev_dependencies@))
    }
}

fn has_parent_component_exec(p: &Vec<char>) -> (b: bool)
    ensures
        b == has_parent_component(p@),
{
    let segs = split_exec(p, &slash_vec());
    let mut i: usize = 0;
    while i < segs.len()
        invariant
            i <= segs@.len(),
            views(segs@) == split(p@, slash()),
            forall|j: int| 0 <= j < i ==> views(segs@)[j] != seq!['.', '.'],
        decreases segs@.len() - i,
    {
        let s = &segs[i];
        if s.len() == 2 && s[0] == '.' && s[1] == '.' {
            assert(views(segs@)[i as int] =~= seq!['.', '.']);
            assert(split(p@, slash())[i as int] == seq!['.', '.']);
            return true;
        }
        assert(views(segs@)[i as int] != seq!['.', '.']) by {
            if s@.len() == 2 {
                if s@[0] != '.' {
                    assert(s@[0] != seq!['.', '.'][0]);
                } else {
                    assert(s@[1] != seq!['.', '.'][1]);
                }
            }
        }
        i = i + 1;
    }
    false
}

fn file_check(f: &TemplateFile) -> (r: Option<String>)
    ensures
        match r {
            Some(m) => file_error(*f) == Some(m@),
            None => file_error(*f) is None,
        },
{
    if f.path.unicode_len() == 0 {
        let mut m = String::from_str("Empty path for file '");
        m.append(f.path.as_str());
        m.append("'");
        return Some(m);
    }
    if has_parent_component_exec(&chars_of(f.path.as_str())) {
        let mut m = String::from_str("Path traversal not allowed: ");
        m.append(f.path.as_str());
        return Some(m);
    }
    None
}

fn dependency_check(dev: bool, name: &String, version: &String) -> (r: Option<String>)
    ensures
        match r {
            Some(m) => dependency_error(dev, name@, version@) == Some(m@),
            None => dependency_error(dev, name@, version@) is None,
        },
{
    if name.unicode_len() == 0 {
        return Some(
            if dev {
                String::from_str("Dev dependency name cannot be empty")
            } else {
                String::from_str("Dependency name cannot be empty")
            },
        );
    }
    if !is_valid_npm_version(version.as_str()) {
        let mut m = if dev {
            String::from_str("Invalid version for dev dependency '")
        } else {
            String::from_str("Invalid version for dependency '")
        };
        m.append(name.as_str());
        m.append("': ");
        m.append(version.as_str());
        return Some(m);
    }
    None
}

fn first_file_check(files: &Vec<(String, TemplateFile)>) -> (r: Option<String>)
    ensures
        match r {
            Some(m) => first_some(file_errors(files@)) == Some(m@),
            None => first_some(file_errors(files@)) is None,
        },
{
    let ghost errs = file_errors(files@);
    let mut i: usize = 0;
    while i < files.len()
        invariant
            i <= files@.len(),
            errs == file_errors(files@),
            forall|j: int| 0 <= j < i ==> errs[j] is None,
        decreases files@.len() - i,
    {
        let r = file_check(&files[i].1);
        proof {
            lemma_first_some_at(errs, i as int);
        }
        if r.is_some() {
            return r;
        }
        i = i + 1;
    }
    proof {
        crate::text::lemma_first_some_skip(errs, i as int);
        assert(errs.skip(i as int).len() == 0);
    }
    None
}

fn first_dependency_check(dev: bool, deps: &Vec<(String, String)>) -> (r: Option<String>)
    ensures
        match r {
            Some(m) => first_some(dependency_errors(dev, deps@)) == Some(m@),
            None => first_some(dependency_errors(dev, deps@)) is None,
        },
{
    let ghost errs = dependency_errors(dev, deps@);
    let mut i: usize = 0;
    while i < deps.len()
        invariant
            i <= deps@.len(),
            errs == dependency_errors(dev, deps@),
            forall|j: int| 0 <= j < i ==> errs[j] is None,
        decreases deps@.len() - i,
    {
        let r = dependency_check(dev, &deps[i].0, &deps[i].1);
        proof {
            lemma_first_some_at(errs, i as int);
        }
        if r.is_some() {
            return r;
        }
        i = i + 1;
    }
    proof {
        crate::text::lemma_first_some_skip(errs, i as int);
        assert(errs.skip(i as int).len() == 0);
    }
    None
}

/// No key of the pairs `v` occurs twice.
pub open spec fn pair_keys_distinct<T>(v: Seq<(String, T)>) -> bool {
    forall|i: int, j: int| 0 <= i < j < v.len() ==> #[trigger] v[i].0@ != #[trigger] v[j].0@
}

/// The keyed lists of a template (files, dependencies, dev dependencies,
/// scripts) each name a key once, as the maps they stand for do.
pub open spec fn template_keys_distinct(t: TemplateConfig) -> bool {
    &&& pair_keys_distinct(t.files@)
    &&& pair_keys_distinct(t.dependencies@)
    &&& pair_keys_distinct(t.dev_dependencies@)
    &&& pair_keys_distinct(t.scripts@)
}

/// Whether no key of `v` occurs twice.
fn keys_distinct_exec<T>(v: &Vec<(String, T)>) -> (b: bool)
    ensures
        b == pair_keys_distinct(v@),
{
    let mut i: usize = 0;
    while i < v.len()
        invariant
            i <= v@.len(),
            forall|a: int, c: int| 0 <= a < c < v@.len() && a < i ==> #[trigger] v@[a].0@ != #[trigger] v@[c].0@,
        decreases v@.len() - i,
    {
        let mut j: usize = i + 1;
        while j < v.len()
            invariant
                i < v@.len(),
                i + 1 <= j <= v@.len(),
                forall|a: int, c: int| 0 <= a < c < v@.len() && a < i ==> #[trigger] v@[a].0@ != #[trigger] v@[c].0@,
                forall|c: int| i < c < j ==> v@[i as int].0@ != #[trigger] v@[c].0@,
            decreases v@.len() - j,
        {
            if v[i].0 == v[j].0 {
                assert(v@[i as int].0@ == v@[j as int].0@);
                return false;
            }
            j = j + 1;
        }
        i = i + 1;
    }
    true
}

impl TemplateConfig {
    /// Whether each keyed list of the template names a key once (see
    /// `template_keys_distinct`).
    pub fn has_distinct_keys(&self) -> (b: bool)
        ensures
            b == template_keys_distinct(*self),
    {
        keys_distinct_exec(&self.files) && keys_distinct_exec(&self.dependencies)
            && keys_distinct_exec(&self.dev_dependencies) && keys_distinct_exec(&self.scripts)
    }

    /// Validates the template: a name, a semantic version, file paths
    /// that are not empty and do not climb out with `..`, and named
    /// dependencies with acceptable version specifiers; the first broken
    /// rule is reported. Its keyed lists name each key once, as the maps
    /// they stand for do.
    pub fn validate(&self) -> (r: Result<()>)
        requires
            template_keys_distinct(*self),
        ensures
            r is Ok <==> template_failure(*self) is None,
            r matches Err(e) ==> (e matches Error::Template(m) && template_failure(*self) == Some(
                m@,
            )),
    {
        if self.name.unicode_len() == 0 {
            return Err(Error::Template(String::from_str("Template name cannot be empty")));
        }
        if !is_valid_semver(self.version.as_str()) {
            let mut m = String::from_str("Invalid template version: ");
            m.append(self.version.as_str());
            return Err(Error::Template(m));
        }
        match first_file_check(&self.files) {
            Some(m) => return Err(Error::Template(m)),
            None => {},
        }
        match first_dependency_check(false, &self.dependencies) {
            Some(m) => return Err(Error::Template(m)),
            None => {},
        }
        match first_dependency_check(true, &self.dev_dependencies) {
            Some(m) => return Err(Error::Template(m)),
            None => {},
        }
        Ok(())
    }

    /// Renders every template file for `project_name`: the result pairs
    /// each file's path with its content rendered; a template that lists
    /// project types and not `project_type` is refused.
    pub fn render(&self, project_name: &str, project_type: ProjectType) -> (r: Result<
        Vec<(String, String)>,
    >)
        requires
            template_keys_distinct(*self),
        ensures
            r is Err <==> (self.project_types@.len() > 0 && !self.project_types@.contains(
                project_type,
            )),
            r matches Err(e) ==> (e matches Error::Template(m) && m@
                == "Template does not support project type "@ + project_type_name(project_type)),
            r matches Ok(out) ==> keys_distinct(text_pairs(out@)) && map_of(text_pairs(out@)) == map_of(
                rendered_files(self.files@, project_name@),
            ),
    {
        if self.project_types.len() > 0 {
            let mut found = false;
            let mut k: usize = 0;
            while k < self.project_types.len()
                invariant
                    k <= self.project_types@.len(),
                    found <==> exists|j: int| 0 <= j < k && self.project_types@[j] == project_type,
                decreases self.project_types@.len() - k,
            {
                if self.project_types[k] == project_type {
                    found = true;
                }
                k = k + 1;
            }
            if !found {
                assert(!self.project_types@.contains(project_type));
                let mut m = String::from_str("Template does not support project type ");
                m.append(
                    match project_type {
                        ProjectType::Application => "Application",
                        ProjectType::Library => "Library",
                        ProjectType::Cli => "Cli",
                    },
                );
                return Err(Error::Template(m));
            }
        }
        let ghost target = rendered_files(self.files@, project_name@);
        let mut out: Vec<(String, String)> = Vec::new();
        let mut i: usize = 0;
        assert(text_pairs(out@) =~= Seq::<(Seq<char>, Seq<char>)>::empty());
        assert(target.take(0) =~= Seq::<(Seq<char>, Seq<char>)>::empty());
        while i < self.files.len()
            invariant
                i <= self.files@.len(),
                target == rendered_files(self.files@, project_name@),
                keys_distinct(text_pairs(out@)),
                map_of(text_pairs(out@)) == map_of(target.take(i as int)),
            decreases self.files@.len() - i,
        {
            let file = &self.files[i].1;
            let content = match render_template(file.content.as_str(), project_name) {
                Ok(c) => c,
                Err(e) => return Err(e),
            };
            let ghost before = text_pairs(out@);
            let ghost entry = (file.path@, content@);
            assert(target[i as int] == entry);
            assert(target.take(i + 1) =~= target.take(i as int).push(entry));
            assert(target.take(i + 1).drop_last() =~= target.take(i as int));
            let found = position_of_key(&out, &file.path);
            if let Some(j) = found {
                proof {
                    lemma_map_of_update(before, j as int, content@);
                }
                out.set(j, (file.path.clone(), content));
                assert(text_pairs(out@) =~= before.update(j as int, (before[j as int].0, entry.1)));
            } else {
                assert forall|k: int| 0 <= k < before.len() implies #[trigger] before[k].0 != entry.0 by {
                    assert(before[k].0 == out@[k].0@);
                }
                proof {
                    lemma_map_of_push(before, entry.0, entry.1);
                }
                out.push((file.path.clone(), content));
                assert(text_pairs(out@) =~= before.push(entry));
            }
            i = i + 1;
        }
        assert(target.take(self.files@.len() as int) =~= target);
        Ok(out)
    }
}

/// The place of the first pair of `pairs` whose key is `key`, if any.
fn position_of_key(pairs: &Vec<(String, String)>, key: &String) -> (r: Option<usize>)
    ensures
        match r {
            Some(j) => j < pairs@.len() && pairs@[j as int].0@ == key@,
            None => forall|k: int| 0 <= k < pairs@.len() ==> (#[trigger] pairs@[k]).0@ != key@,
        },
{
    let mut j: usize = 0;
    while j < pairs.len()
        invariant
            j <= pairs@.len(),
            forall|k: int| 0 <= k < j ==> (#[trigger] pairs@[k]).0@ != key@,
        decreases pairs@.len() - j,
    {
        if pairs[j].0 == *key {
            return Some(j);
        }
        j = j + 1;
    }
    None
}

/// Pairs of strings as text.
pub open spec fn text_pairs(v: Seq<(String, String)>) -> Seq<(Seq<char>, Seq<char>)> {
    Seq::new(v.len(), |i: int| (v[i].0@, v[i].1@))
}

/// Each template file's path with its content rendered for `name`, in
/// order; read as a map (`map_of`), a later file with the same path wins.
pub open spec fn rendered_files(files: Seq<(String, TemplateFile)>, name: Seq<char>) -> Seq<(Seq<char>, Seq<char>)> {
    Seq::new(files.len(), |i: int| (files[i].1.path@, rendered(files[i].1.content@, name)))
}

/// How `Debug` names a project type.
pub open spec fn project_type_name(t: ProjectType) -> Seq<char> {
    match t {
        ProjectType::Application => "Application"@,
        ProjectType::Library => "Library"@,
        ProjectType::Cli => "Cli"@,
    }
}

/// The placeholder that rendering fills with the project name.
pub const PROJECT_NAME_PLACEHOLDER: &'static str = "{{project-name}}";

/// `template` with every `{{project-name}}` replaced by `name`.
pub open spec fn rendered(template: Seq<char>, name: Seq<char>) -> Seq<char> {
    replace_all(template, PROJECT_NAME_PLACEHOLDER@, name)
}

/// Renders a template string: every `{{project-name}}` becomes the
/// project name.
pub fn render_template(template: &str, project_name: &str) -> (r: Result<String>)
    ensures
        r matches Ok(s) && s@ == rendered(template@, project_name@),
{
    let pat = chars_of(PROJECT_NAME_PLACEHOLDER);
    proof {
        reveal_strlit("{{project-name}}");
    }
    assert(pat@.len() > 0);
    let out = replace_str(&chars_of(template), &pat, &chars_of(project_name));
    Ok(string_from_chars(&out))
}


/// The name of a template's manifest in its directory.
pub const TEMPLATE_MANIFEST: &'static str = "template.json";

/// The files every workspace gets: name, content, and whether executable.
pub fn workspace_config_files() -> (r: Vec<(String, String, bool)>)
    ensures
        r@.len() == 1,
        r@[0].0@ == ".gitignore"@,
        r@[0].1@ == "node_modules/"@,
        !r@[0].2,
{
    let mut r: Vec<(String, String, bool)> = Vec::new();
    r.push((String::from_str(".gitignore"), String::from_str("node_modules/"), false));
    r
}

/// The error for a template whose manifest is not at `manifest_path`.
pub fn manifest_not_found(manifest_path: &str) -> (e: Error)
    ensures
        e matches Error::Template(m) && m@ == "Template manifest not found at "@ + manifest_path@,
{
    let mut m = String::from_str("Template manifest not found at ");
    m.append(manifest_path);
    Error::Template(m)
}

/// The error for a template manifest that could not be read.
pub fn manifest_unreadable(why: &str) -> (e: Error)
    ensures
        e matches Error::Template(m) && m@ == "Failed to read template manifest: "@ + why@,
{
    let mut m = String::from_str("Failed to read template manifest: ");
    m.append(why);
    Error::Template(m)
}

/// The error for a template manifest that is not a template description.
pub fn manifest_invalid(why: &str) -> (e: Error)
    ensures
        e matches Error::Template(m) && m@ == "Invalid template manifest: "@ + why@,
{
    let mut m = String::from_str("Invalid template manifest: ");
    m.append(why);
    Error::Template(m)
}

} // verus!
