//! Character-level building blocks shared by the validators and the
//! template and path transformations of the library.

use vstd::prelude::*;
use vstd::string::*;

verus! {

/// Appends one character to a string (std `String::push`).
#[verifier::external_body]
pub(crate) fn push_char(s: &mut String, c: char)
    ensures
        final(s)@ == old(s)@.push(c),
{
    s.push(c);
}

/// The characters of `s`, in order.
pub fn chars_of(s: &str) -> (v: Vec<char>)
    ensures
        v@ == s@,
{
    let n = s.unicode_len();
    let mut v: Vec<char> = Vec::new();
    let mut i: usize = 0;
    while i < n
        invariant
            n == s@.len(),
            i <= n,
            v@ == s@.subrange(0, i as int),
        decreases n - i,
    {
        let c = s.get_char(i);
        v.push(c);
        i = i + 1;
        assert(v@ =~= s@.subrange(0, i as int));
    }
    assert(v@ =~= s@);
    v
}

/// A string holding exactly the characters `v[from..to]`.
pub fn string_from_range(v: &Vec<char>, from: usize, to: usize) -> (s: String)
    requires
        from <= to <= v@.len(),
    ensures
        s@ == v@.subrange(from as int, to as int),
{
    let mut s = String::new();
    let mut i = from;
    while i < to
        invariant
            from <= i <= to,
            to <= v@.len(),
            s@ == v@.subrange(from as int, i as int),
        decreases to - i,
    {
        push_char(&mut s, v[i]);
        i = i + 1;
        assert(s@ =~= v@.subrange(from as int, i as int));
    }
    s
}

/// A string holding exactly the characters of `v`.
pub fn string_from_chars(v: &Vec<char>) -> (s: String)
    ensures
        s@ == v@,
{
    let s = string_from_range(v, 0, v.len());
    assert(v@.subrange(0, v@.len() as int) =~= v@);
    s
}

/// Copies a string slice into an owned string.
pub fn to_owned_string(s: &str) -> (r: String)
    ensures
        r@ == s@,
{
    s.to_owned()
}

/// `pat` occurs in `s` at position `i`.
pub open spec fn occurs_at(s: Seq<char>, pat: Seq<char>, i: int) -> bool {
    0 <= i && i + pat.len() <= s.len() && s.subrange(i, i + pat.len()) == pat
}

/// `pat` occurs somewhere in `s`.
pub open spec fn contains_seq(s: Seq<char>, pat: Seq<char>) -> bool {
    exists|i: int| occurs_at(s, pat, i)
}

/// `s` starts with `pat`.
pub open spec fn starts_with(s: Seq<char>, pat: Seq<char>) -> bool {
    occurs_at(s, pat, 0)
}

/// `s` ends with `pat`.
pub open spec fn ends_with(s: Seq<char>, pat: Seq<char>) -> bool {
    occurs_at(s, pat, s.len() - pat.len())
}

/// Replaces, from left to right, every non-overlapping occurrence of
/// the non-empty `pat` in `s` by `rep` (the rule of `str::replace`).
pub open spec fn replace_all(s: Seq<char>, pat: Seq<char>, rep: Seq<char>) -> Seq<char>
    decreases s.len(),
{
    if pat.len() == 0 || s.len() < pat.len() {
        s
    } else if s.subrange(0, pat.len() as int) == pat {
        rep + replace_all(s.skip(pat.len() as int), pat, rep)
    } else {
        seq![s[0]] + replace_all(s.skip(1), pat, rep)
    }
}

/// Whether `pat` occurs in `v` at position `i`.
pub fn occurs_at_exec(v: &Vec<char>, pat: &Vec<char>, i: usize) -> (b: bool)
    ensures
        b == occurs_at(v@, pat@, i as int),
{
    if i > v.len() || pat.len() > v.len() - i {
        return false;
    }
    let mut k: usize = 0;
    while k < pat.len()
        invariant
            i + pat@.len() <= v@.len(),
            i + pat.len() <= v.len(),
            k <= pat@.len(),
            forall|j: int| 0 <= j < k ==> v@[i + j] == pat@[j],
        decreases pat@.len() - k,
    {
        if v[i + k] != pat[k] {
            assert(v@.subrange(i as int, i + pat@.len())[k as int] != pat@[k as int]);
            return false;
        }
        k = k + 1;
    }
    assert(v@.subrange(i as int, i + pat@.len()) =~= pat@);
    true
}

/// Whether the non-empty or empty `pat` occurs anywhere in `v`.
pub fn contains_exec(v: &Vec<char>, pat: &Vec<char>) -> (b: bool)
    ensures
        b == contains_seq(v@, pat@),
{
    let mut i: usize = 0;
    while i < v.len()
        invariant
            i <= v@.len(),
            forall|j: int| 0 <= j < i ==> !occurs_at(v@, pat@, j),
        decreases v@.len() - i,
    {
        if occurs_at_exec(v, pat, i) {
            return true;
        }
        i = i + 1;
    }
    occurs_at_exec(v, pat, i)
}

proof fn lemma_replace_all_step(s: Seq<char>, pat: Seq<char>, rep: Seq<char>, i: int)
    requires
        pat.len() > 0,
        0 <= i <= s.len(),
    ensures
        i + pat.len() <= s.len() && occurs_at(s, pat, i) ==> replace_all(s.skip(i), pat, rep)
            == rep + replace_all(s.skip(i + pat.len()), pat, rep),
        !(i + pat.len() <= s.len() && occurs_at(s, pat, i)) && i + pat.len() <= s.len()
            ==> replace_all(s.skip(i), pat, rep) == seq![s[i]] + replace_all(
            s.skip(i + 1),
            pat,
            rep,
        ),
        i + pat.len() > s.len() ==> replace_all(s.skip(i), pat, rep) == s.skip(i),
{
    let t = s.skip(i);
    if i + pat.len() <= s.len() {
        assert(t.subrange(0, pat.len() as int) =~= s.subrange(i, i + pat.len()));
        assert(t.skip(pat.len() as int) =~= s.skip(i + pat.len()));
        assert(t.skip(1) =~= s.skip(i + 1));
    }
}

/// `s` with every non-overlapping occurrence of `pat` replaced by `rep`.
pub fn replace_str(s: &Vec<char>, pat: &Vec<char>, rep: &Vec<char>) -> (r: Vec<char>)
    requires
        pat@.len() > 0,
    ensures
        r@ == replace_all(s@, pat@, rep@),
{
    let mut out: Vec<char> = Vec::new();
    let mut i: usize = 0;
    assert(s@.skip(0) =~= s@);
    assert(out@ + replace_all(s@, pat@, rep@) =~= replace_all(s@, pat@, rep@));
    while i < s.len()
        invariant
            pat@.len() > 0,
            i <= s@.len(),
            out@ + replace_all(s@.skip(i as int), pat@, rep@) == replace_all(s@, pat@, rep@),
        decreases s@.len() - i,
    {
        proof {
            lemma_replace_all_step(s@, pat@, rep@, i as int);
        }
        if occurs_at_exec(s, pat, i) {
            let mut k: usize = 0;
            let ghost before = out@;
            while k < rep.len()
                invariant
                    k <= rep@.len(),
                    out@ == before + rep@.subrange(0, k as int),
                decreases rep@.len() - k,
            {
                out.push(rep[k]);
                k = k + 1;
                assert(out@ =~= before + rep@.subrange(0, k as int));
            }
            assert(rep@.subrange(0, rep@.len() as int) =~= rep@);
            assert(out@ + replace_all(s@.skip(i + pat@.len()), pat@, rep@) =~= before + (rep@
                + replace_all(s@.skip(i + pat@.len()), pat@, rep@)));
            i = i + pat.len();
        } else {
            let ghost before = out@;
            out.push(s[i]);
            if pat.len() > s.len() - i {
                assert(s@.skip(i as int) =~= seq![s@[i as int]] + s@.skip(i + 1));
                proof {
                    lemma_replace_all_step(s@, pat@, rep@, i + 1);
                }
            }
            assert(out@ + replace_all(s@.skip(i + 1), pat@, rep@) =~= before + (seq![s@[i as int]]
                + replace_all(s@.skip(i + 1), pat@, rep@)));
            i = i + 1;
        }
    }
    assert(s@.skip(i as int) =~= Seq::<char>::empty());
    assert(out@ + Seq::<char>::empty() =~= out@);
    out
}

} // verus!

verus! {

/// `c` has the Unicode `White_Space` property (the rule of
/// `char::is_whitespace`, and of `\s` and `str::trim`).
pub open spec fn is_unicode_whitespace(c: char) -> bool {
    ||| ('\u{9}' <= c && c <= '\u{d}')
    ||| c == ' '
    ||| c == '\u{85}'
    ||| c == '\u{a0}'
    ||| c == '\u{1680}'
    ||| ('\u{2000}' <= c && c <= '\u{200a}')
    ||| c == '\u{2028}'
    ||| c == '\u{2029}'
    ||| c == '\u{202f}'
    ||| c == '\u{205f}'
    ||| c == '\u{3000}'
}

/// Whether `c` is Unicode white space.
pub fn is_unicode_whitespace_exec(c: char) -> (b: bool)
    ensures
        b == is_unicode_whitespace(c),
{
    ('\u{9}' <= c && c <= '\u{d}') || c == ' ' || c == '\u{85}' || c == '\u{a0}' || c
        == '\u{1680}' || ('\u{2000}' <= c && c <= '\u{200a}') || c == '\u{2028}' || c
        == '\u{2029}' || c == '\u{202f}' || c == '\u{205f}' || c == '\u{3000}'
}

/// `s` is empty once white space is trimmed off both ends.
pub open spec fn trims_to_empty(s: Seq<char>) -> bool {
    forall|i: int| 0 <= i < s.len() ==> is_unicode_whitespace(#[trigger] s[i])
}

/// Whether `s` consists of white space only (`s.trim().is_empty()`).
pub fn trims_to_empty_exec(v: &Vec<char>) -> (b: bool)
    ensures
        b == trims_to_empty(v@),
{
    let mut i: usize = 0;
    while i < v.len()
        invariant
            i <= v@.len(),
            forall|j: int| 0 <= j < i ==> is_unicode_whitespace(#[trigger] v@[j]),
        decreases v@.len() - i,
    {
        if !is_unicode_whitespace_exec(v[i]) {
            return false;
        }
        i = i + 1;
    }
    true
}

pub open spec fn is_lower(c: char) -> bool {
    'a' <= c && c <= 'z'
}

pub open spec fn is_upper(c: char) -> bool {
    'A' <= c && c <= 'Z'
}

pub open spec fn is_digit(c: char) -> bool {
    '0' <= c && c <= '9'
}

pub open spec fn is_ascii_alnum(c: char) -> bool {
    is_lower(c) || is_upper(c) || is_digit(c)
}

/// The character classes that the naming rules of the library use.
#[derive(Clone, Copy, PartialEq, Eq, Structural, Debug)]
pub enum CharClass {
    /// `[a-z]`
    Lower,
    /// `[a-z0-9]`
    LowerDigit,
    /// `[a-z0-9-]`
    LowerDigitDash,
    /// `[a-z0-9-._]`
    LowerDigitDashDotUnderscore,
    /// `[a-z0-9-._~]`
    NpmTail,
    /// `[a-z0-9-~]`
    NpmFirst,
    /// `[a-z0-9-*~]`
    NpmScopeFirst,
    /// `[a-z0-9-*._~]`
    NpmScopeRest,
    /// `[A-Za-z0-9-_]`
    AlnumDashUnderscore,
    /// `[A-Za-z0-9-_.]`
    AlnumDashUnderscoreDot,
    /// `[a-z-_]`
    LowerDashUnderscore,
}

pub open spec fn in_class(c: char, cls: CharClass) -> bool {
    match cls {
        CharClass::Lower => is_lower(c),
        CharClass::LowerDigit => is_lower(c) || is_digit(c),
        CharClass::LowerDigitDash => is_lower(c) || is_digit(c) || c == '-',
        CharClass::LowerDigitDashDotUnderscore => is_lower(c) || is_digit(c) || c == '-' || c
            == '.' || c == '_',
        CharClass::NpmTail => is_lower(c) || is_digit(c) || c == '-' || c == '.' || c == '_' || c
            == '~',
        CharClass::NpmFirst => is_lower(c) || is_digit(c) || c == '-' || c == '~',
        CharClass::NpmScopeFirst => is_lower(c) || is_digit(c) || c == '-' || c == '*' || c
            == '~',
        CharClass::NpmScopeRest => is_lower(c) || is_digit(c) || c == '-' || c == '*' || c == '.'
            || c == '_' || c == '~',
        CharClass::AlnumDashUnderscore => is_ascii_alnum(c) || c == '-' || c == '_',
        CharClass::AlnumDashUnderscoreDot => is_ascii_alnum(c) || c == '-' || c == '_' || c
            == '.',
        CharClass::LowerDashUnderscore => is_lower(c) || c == '-' || c == '_',
    }
}

/// Whether `c` belongs to `cls`.
pub fn in_class_exec(c: char, cls: CharClass) -> (b: bool)
    ensures
        b == in_class(c, cls),
{
    let lower = 'a' <= c && c <= 'z';
    let digit = '0' <= c && c <= '9';
    let alnum = lower || digit || ('A' <= c && c <= 'Z');
    match cls {
        CharClass::Lower => lower,
        CharClass::LowerDigit => lower || digit,
        CharClass::LowerDigitDash => lower || digit || c == '-',
        CharClass::LowerDigitDashDotUnderscore => lower || digit || c == '-' || c == '.' || c
            == '_',
        CharClass::NpmTail => lower || digit || c == '-' || c == '.' || c == '_' || c == '~',
        CharClass::NpmFirst => lower || digit || c == '-' || c == '~',
        CharClass::NpmScopeFirst => lower || digit || c == '-' || c == '*' || c == '~',
        CharClass::NpmScopeRest => lower || digit || c == '-' || c == '*' || c == '.' || c == '_'
            || c == '~',
        CharClass::AlnumDashUnderscore => alnum || c == '-' || c == '_',
        CharClass::AlnumDashUnderscoreDot => alnum || c == '-' || c == '_' || c == '.',
        CharClass::LowerDashUnderscore => lower || c == '-' || c == '_',
    }
}

/// Every character of `s[from..to]` belongs to `cls`.
pub open spec fn all_in_class(s: Seq<char>, from: int, to: int, cls: CharClass) -> bool {
    forall|i: int| from <= i < to ==> in_class(#[trigger] s[i], cls)
}

/// Whether every character of `v[from..to]` belongs to `cls`.
pub fn all_in_class_exec(v: &Vec<char>, from: usize, to: usize, cls: CharClass) -> (b: bool)
    requires
        from <= to <= v@.len(),
    ensures
        b == all_in_class(v@, from as int, to as int, cls),
{
    let mut i = from;
    while i < to
        invariant
            from <= i <= to,
            to <= v@.len(),
            all_in_class(v@, from as int, i as int, cls),
        decreases to - i,
    {
        if !in_class_exec(v[i], cls) {
            return false;
        }
        i = i + 1;
    }
    true
}

/// Whether `c` occurs in `v`.
pub fn contains_char(v: &Vec<char>, c: char) -> (b: bool)
    ensures
        b == v@.contains(c),
{
    let mut i: usize = 0;
    while i < v.len()
        invariant
            i <= v@.len(),
            forall|j: int| 0 <= j < i ==> v@[j] != c,
        decreases v@.len() - i,
    {
        if v[i] == c {
            assert(v@[i as int] == c);
            return true;
        }
        i = i + 1;
    }
    false
}

/// The decimal digit character for `d < 10`.
pub open spec fn digit_char(d: nat) -> char {
    if d == 0 {
        '0'
    } else if d == 1 {
        '1'
    } else if d == 2 {
        '2'
    } else if d == 3 {
        '3'
    } else if d == 4 {
        '4'
    } else if d == 5 {
        '5'
    } else if d == 6 {
        '6'
    } else if d == 7 {
        '7'
    } else if d == 8 {
        '8'
    } else {
        '9'
    }
}

/// The decimal notation of `n`, without sign or leading zeros (the text
/// that `Display` gives an unsigned integer).
pub open spec fn decimal(n: nat) -> Seq<char>
    decreases n,
{
    if n < 10 {
        seq![digit_char(n)]
    } else {
        decimal(n / 10).push(digit_char(n % 10))
    }
}

fn digit_char_exec(d: u64) -> (c: char)
    requires
        d < 10,
    ensures
        c == digit_char(d as nat),
{
    if d == 0 {
        '0'
    } else if d == 1 {
        '1'
    } else if d == 2 {
        '2'
    } else if d == 3 {
        '3'
    } else if d == 4 {
        '4'
    } else if d == 5 {
        '5'
    } else if d == 6 {
        '6'
    } else if d == 7 {
        '7'
    } else if d == 8 {
        '8'
    } else {
        '9'
    }
}

/// The decimal text of `n`.
pub fn decimal_string(n: u64) -> (s: String)
    ensures
        s@ == decimal(n as nat),
    decreases n,
{
    if n < 10 {
        let mut s = String::new();
        push_char(&mut s, digit_char_exec(n));
        assert(s@ =~= seq![digit_char(n as nat)]);
        s
    } else {
        let mut s = decimal_string(n / 10);
        push_char(&mut s, digit_char_exec(n % 10));
        s
    }
}

/// Appends `tail` to `s`.
pub fn append_str(s: &mut String, tail: &str)
    ensures
        final(s)@ == old(s)@ + tail@,
{
    s.append(tail);
}

} // verus!

verus! {

/// The pieces of `cur + s` between the non-overlapping occurrences of the
/// non-empty `sep`, found from left to right (the rule of `str::split`).
pub open spec fn split_from(s: Seq<char>, sep: Seq<char>, cur: Seq<char>) -> Seq<Seq<char>>
    decreases s.len(),
{
    if sep.len() == 0 || s.len() == 0 {
        seq![cur + s]
    } else if starts_with(s, sep) {
        seq![cur] + split_from(s.skip(sep.len() as int), sep, Seq::empty())
    } else {
        split_from(s.skip(1), sep, cur.push(s[0]))
    }
}

/// The pieces of `s` between the occurrences of `sep`.
pub open spec fn split(s: Seq<char>, sep: Seq<char>) -> Seq<Seq<char>> {
    split_from(s, sep, Seq::empty())
}

/// The pieces joined with `sep` between neighbours (the rule of `join`).
pub open spec fn join(parts: Seq<Seq<char>>, sep: Seq<char>) -> Seq<char>
    decreases parts.len(),
{
    if parts.len() == 0 {
        Seq::empty()
    } else if parts.len() == 1 {
        parts[0]
    } else {
        parts[0] + sep + join(parts.skip(1), sep)
    }
}

/// The views of a sequence of character vectors.
pub open spec fn views(vs: Seq<Vec<char>>) -> Seq<Seq<char>> {
    vs.map_values(|v: Vec<char>| v@)
}

pub proof fn lemma_split_nonempty(s: Seq<char>, sep: Seq<char>, cur: Seq<char>)
    ensures
        split_from(s, sep, cur).len() >= 1,
    decreases s.len(),
{
    if sep.len() == 0 || s.len() == 0 {
    } else if starts_with(s, sep) {
        lemma_split_nonempty(s.skip(sep.len() as int), sep, Seq::empty());
    } else {
        lemma_split_nonempty(s.skip(1), sep, cur.push(s[0]));
    }
}

/// Joining the pieces of a split with the separator gives back the text.
pub proof fn lemma_join_split(s: Seq<char>, sep: Seq<char>, cur: Seq<char>)
    requires
        sep.len() > 0,
    ensures
        join(split_from(s, sep, cur), sep) == cur + s,
    decreases s.len(),
{
    if s.len() == 0 {
        assert(cur + s =~= cur);
    } else if starts_with(s, sep) {
        let rest = s.skip(sep.len() as int);
        lemma_join_split(rest, sep, Seq::empty());
        lemma_split_nonempty(rest, sep, Seq::empty());
        let parts = seq![cur] + split_from(rest, sep, Seq::empty());
        assert(parts.skip(1) =~= split_from(rest, sep, Seq::empty()));
        assert(Seq::<char>::empty() + rest =~= rest);
        assert(s =~= s.subrange(0, sep.len() as int) + rest);
        assert(cur + s =~= cur + sep + rest);
    } else {
        lemma_join_split(s.skip(1), sep, cur.push(s[0]));
        assert(cur.push(s[0]) + s.skip(1) =~= cur + s);
    }
}

proof fn lemma_split_step(s: Seq<char>, sep: Seq<char>, cur: Seq<char>, i: int)
    requires
        sep.len() > 0,
        0 <= i < s.len(),
    ensures
        occurs_at(s, sep, i) ==> split_from(s.skip(i), sep, cur) == seq![cur] + split_from(
            s.skip(i + sep.len()),
            sep,
            Seq::empty(),
        ),
        !occurs_at(s, sep, i) ==> split_from(s.skip(i), sep, cur) == split_from(
            s.skip(i + 1),
            sep,
            cur.push(s[i]),
        ),
{
    let t = s.skip(i);
    if i + sep.len() <= s.len() {
        assert(t.subrange(0, sep.len() as int) =~= s.subrange(i, i + sep.len()));
        assert(t.skip(sep.len() as int) =~= s.skip(i + sep.len()));
    }
    assert(t.skip(1) =~= s.skip(i + 1));
}

/// The pieces of `v` between the occurrences of the non-empty `sep`.
pub fn split_exec(v: &Vec<char>, sep: &Vec<char>) -> (r: Vec<Vec<char>>)
    requires
        sep@.len() > 0,
    ensures
        views(r@) == split(v@, sep@),
{
    let mut out: Vec<Vec<char>> = Vec::new();
    let mut cur: Vec<char> = Vec::new();
    let mut i: usize = 0;
    assert(v@.skip(0) =~= v@);
    assert(views(out@) + split_from(v@, sep@, cur@) =~= split(v@, sep@));
    while i < v.len()
        invariant
            sep@.len() > 0,
            i <= v@.len(),
            views(out@) + split_from(v@.skip(i as int), sep@, cur@) == split(v@, sep@),
        decreases v@.len() - i,
    {
        proof {
            lemma_split_step(v@, sep@, cur@, i as int);
        }
        if occurs_at_exec(v, sep, i) {
            let ghost before = views(out@);
            let finished = cur;
            cur = Vec::new();
            out.push(finished);
            assert(views(out@) =~= before.push(finished@));
            assert(views(out@) + split_from(v@.skip(i + sep@.len()), sep@, cur@) =~= before + (
            seq![finished@] + split_from(v@.skip(i + sep@.len()), sep@, Seq::empty())));
            i = i + sep.len();
        } else {
            cur.push(v[i]);
            i = i + 1;
        }
    }
    let ghost before = views(out@);
    assert(v@.skip(i as int) =~= Seq::<char>::empty());
    assert(cur@ + Seq::<char>::empty() =~= cur@);
    out.push(cur);
    assert(views(out@) =~= before + seq![cur@]);
    out
}

} // verus!

verus! {

/// Joining one more piece adds the separator and the piece at the end.
pub proof fn lemma_join_push(parts: Seq<Seq<char>>, x: Seq<char>, sep: Seq<char>)
    requires
        parts.len() > 0,
    ensures
        join(parts.push(x), sep) == join(parts, sep) + sep + x,
    decreases parts.len(),
{
    if parts.len() == 1 {
        assert(parts.push(x).skip(1) =~= seq![x]);
        assert(join(seq![x], sep) == x);
        assert(parts.push(x)[0] == parts[0]);
    } else {
        assert(parts.push(x)[0] == parts[0]);
        lemma_join_push(parts.skip(1), x, sep);
        assert(parts.push(x).skip(1) =~= parts.skip(1).push(x));
        assert(parts[0] + sep + (join(parts.skip(1), sep) + sep + x) =~= (parts[0] + sep + join(
            parts.skip(1),
            sep,
        )) + sep + x);
    }
}

/// The pieces `parts[from..]` joined with `sep`.
pub fn join_exec(parts: &Vec<Vec<char>>, from: usize, sep: &Vec<char>) -> (r: Vec<char>)
    requires
        from <= parts@.len(),
    ensures
        r@ == join(views(parts@).skip(from as int), sep@),
{
    let mut r: Vec<char> = Vec::new();
    let mut k = from;
    while k < parts.len()
        invariant
            from <= k <= parts@.len(),
            r@ == join(views(parts@).subrange(from as int, k as int), sep@),
        decreases parts@.len() - k,
    {
        let ghost done = views(parts@).subrange(from as int, k as int);
        if k > from {
            let mut j: usize = 0;
            let ghost before = r@;
            while j < sep.len()
                invariant
                    j <= sep@.len(),
                    r@ == before + sep@.subrange(0, j as int),
                decreases sep@.len() - j,
            {
                r.push(sep[j]);
                j = j + 1;
                assert(r@ =~= before + sep@.subrange(0, j as int));
            }
            assert(sep@.subrange(0, sep@.len() as int) =~= sep@);
        }
        let ghost mid = r@;
        let part = &parts[k];
        let mut j: usize = 0;
        while j < part.len()
            invariant
                j <= part@.len(),
                r@ == mid + part@.subrange(0, j as int),
            decreases part@.len() - j,
        {
            r.push(part[j]);
            j = j + 1;
            assert(r@ =~= mid + part@.subrange(0, j as int));
        }
        assert(part@.subrange(0, part@.len() as int) =~= part@);
        proof {
            let next = views(parts@).subrange(from as int, k + 1);
            assert(next =~= done.push(part@));
            if k > from {
                lemma_join_push(done, part@, sep@);
            } else {
                assert(done =~= Seq::<Seq<char>>::empty());
                assert(next =~= seq![part@]);
                assert(r@ =~= part@);
            }
        }
        k = k + 1;
    }
    assert(views(parts@).subrange(from as int, parts@.len() as int) =~= views(parts@).skip(
        from as int,
    ));
    r
}

} // verus!

verus! {

/// A copy of `v`.
pub fn copy_chars(v: &Vec<char>) -> (r: Vec<char>)
    ensures
        r@ == v@,
{
    let mut r: Vec<char> = Vec::new();
    let mut i: usize = 0;
    while i < v.len()
        invariant
            i <= v@.len(),
            r@ == v@.subrange(0, i as int),
        decreases v@.len() - i,
    {
        r.push(v[i]);
        i = i + 1;
        assert(r@ =~= v@.subrange(0, i as int));
    }
    assert(r@ =~= v@);
    r
}

} // verus!

verus! {

/// The characters `v[from..to]`.
pub fn sub_chars(v: &Vec<char>, from: usize, to: usize) -> (r: Vec<char>)
    requires
        from <= to <= v@.len(),
    ensures
        r@ == v@.subrange(from as int, to as int),
{
    let mut r: Vec<char> = Vec::new();
    let mut i = from;
    while i < to
        invariant
            from <= i <= to <= v@.len(),
            r@ == v@.subrange(from as int, i as int),
        decreases to - i,
    {
        r.push(v[i]);
        i = i + 1;
        assert(r@ =~= v@.subrange(from as int, i as int));
    }
    r
}

/// The first error of a list of checks, in order.
pub open spec fn first_some(errs: Seq<Option<Seq<char>>>) -> Option<Seq<char>>
    decreases errs.len(),
{
    if errs.len() == 0 {
        None
    } else if errs[0] is Some {
        errs[0]
    } else {
        first_some(errs.skip(1))
    }
}

/// When the first `i` checks pass, the first error is among the rest.
pub proof fn lemma_first_some_skip(errs: Seq<Option<Seq<char>>>, i: int)
    requires
        0 <= i <= errs.len(),
        forall|j: int| 0 <= j < i ==> errs[j] is None,
    ensures
        first_some(errs) == first_some(errs.skip(i)),
    decreases i,
{
    if i > 0 {
        assert(errs.skip(1).skip(i - 1) =~= errs.skip(i));
        lemma_first_some_skip(errs.skip(1), i - 1);
    } else {
        assert(errs.skip(0) =~= errs);
    }
}

/// The first error is that of the check at `i` when all earlier checks pass.
pub proof fn lemma_first_some_at(errs: Seq<Option<Seq<char>>>, i: int)
    requires
        0 <= i < errs.len(),
        forall|j: int| 0 <= j < i ==> errs[j] is None,
    ensures
        errs[i] is Some ==> first_some(errs) == errs[i],
        errs[i] is None ==> first_some(errs) == first_some(errs.skip(i + 1)),
{
    lemma_first_some_skip(errs, i);
    assert(errs.skip(i)[0] == errs[i]);
    assert(errs.skip(i).skip(1) =~= errs.skip(i + 1));
}


/// Splitting text without the separator character gives the text whole.
pub proof fn lemma_split_plain(s: Seq<char>, c: char, cur: Seq<char>)
    requires
        !s.contains(c),
    ensures
        split_from(s, seq![c], cur) == seq![cur + s],
    decreases s.len(),
{
    if s.len() > 0 {
        assert(s[0] != c);
        assert(!starts_with(s, seq![c])) by {
            if starts_with(s, seq![c]) {
                assert(s.subrange(0, 1)[0] == s[0]);
            }
        }
        assert(!s.skip(1).contains(c)) by {
            if s.skip(1).contains(c) {
                let k = choose|k: int| 0 <= k < s.skip(1).len() && s.skip(1)[k] == c;
                assert(s[k + 1] == c);
            }
        }
        lemma_split_plain(s.skip(1), c, cur.push(s[0]));
        assert(cur.push(s[0]) + s.skip(1) =~= cur + s);
    } else {
        assert(cur + s =~= cur);
    }
}

/// Splitting `a`, the separator character, then `rest` gives `a` (after
/// what came before) and then the pieces of `rest`.
pub proof fn lemma_split_sep(a: Seq<char>, rest: Seq<char>, c: char, cur: Seq<char>)
    requires
        !a.contains(c),
    ensures
        split_from(a + seq![c] + rest, seq![c], cur) == seq![cur + a] + split_from(rest, seq![c], Seq::empty()),
    decreases a.len(),
{
    let s = a + seq![c] + rest;
    if a.len() == 0 {
        assert(s =~= seq![c] + rest);
        assert(s.subrange(0, 1) =~= seq![c]);
        assert(s.skip(1) =~= rest);
        assert(cur + a =~= cur);
    } else {
        assert(s[0] == a[0]);
        assert(a[0] != c);
        assert(!starts_with(s, seq![c])) by {
            if starts_with(s, seq![c]) {
                assert(s.subrange(0, 1)[0] == s[0]);
            }
        }
        assert(!a.skip(1).contains(c)) by {
            if a.skip(1).contains(c) {
                let k = choose|k: int| 0 <= k < a.skip(1).len() && a.skip(1)[k] == c;
                assert(a[k + 1] == c);
            }
        }
        assert(s.skip(1) =~= a.skip(1) + seq![c] + rest);
        lemma_split_sep(a.skip(1), rest, c, cur.push(a[0]));
        assert(cur.push(a[0]) + a.skip(1) =~= cur + a);
    }
}

/// Splitting the join of pieces without the separator character gives the
/// pieces back.
pub proof fn lemma_split_join(parts: Seq<Seq<char>>, c: char)
    requires
        parts.len() >= 1,
        forall|i: int| 0 <= i < parts.len() ==> !(#[trigger] parts[i]).contains(c),
    ensures
        split(join(parts, seq![c]), seq![c]) == parts,
    decreases parts.len(),
{
    if parts.len() == 1 {
        lemma_split_plain(parts[0], c, Seq::empty());
        assert(Seq::<char>::empty() + parts[0] =~= parts[0]);
        assert(seq![parts[0]] =~= parts);
    } else {
        let rest = parts.skip(1);
        assert forall|i: int| 0 <= i < rest.len() implies !(#[trigger] rest[i]).contains(c) by {
            assert(rest[i] == parts[i + 1]);
        }
        lemma_split_join(rest, c);
        lemma_split_sep(parts[0], join(rest, seq![c]), c, Seq::empty());
        assert(Seq::<char>::empty() + parts[0] =~= parts[0]);
        assert(seq![parts[0]] + rest =~= parts);
    }
}

/// No piece of a split holds the separator character, when the piece
/// begun before holds none.
pub proof fn lemma_split_pieces_plain(s: Seq<char>, c: char, cur: Seq<char>)
    requires
        !cur.contains(c),
    ensures
        forall|i: int| 0 <= i < split_from(s, seq![c], cur).len() ==> !(#[trigger] split_from(s, seq![c], cur)[i]).contains(c),
    decreases s.len(),
{
    let sep = seq![c];
    if s.len() == 0 {
        assert(cur + s =~= cur);
        assert(split_from(s, sep, cur) == seq![cur + s]);
        assert(split_from(s, sep, cur)[0] == cur);
    } else if starts_with(s, sep) {
        lemma_split_pieces_plain(s.skip(1), c, Seq::empty());
        let r = split_from(s.skip(1), sep, Seq::empty());
        assert(!Seq::<char>::empty().contains(c));
        assert(split_from(s, sep, cur) == seq![cur] + r);
        assert forall|i: int| 0 <= i < split_from(s, sep, cur).len() implies !(#[trigger] split_from(s, sep, cur)[i]).contains(c) by {
            if i > 0 {
                assert(split_from(s, sep, cur)[i] == r[i - 1]);
            } else {
                assert(split_from(s, sep, cur)[0] == cur);
            }
        }
    } else {
        assert(s[0] != c) by {
            if s[0] == c {
                assert(s.subrange(0, 1) =~= sep);
            }
        }
        assert(!cur.push(s[0]).contains(c)) by {
            if cur.push(s[0]).contains(c) {
                let k = choose|k: int| 0 <= k < cur.push(s[0]).len() && cur.push(s[0])[k] == c;
                if k < cur.len() {
                    assert(cur[k] == c);
                }
            }
        }
        lemma_split_pieces_plain(s.skip(1), c, cur.push(s[0]));
        assert(split_from(s, sep, cur) == split_from(s.skip(1), sep, cur.push(s[0])));
    }
}


/// The texts of `v`, in order.
pub open spec fn texts(v: Seq<String>) -> Seq<Seq<char>> {
    v.map_values(|s: String| s@)
}

/// A copy of the texts `v`.
pub fn copy_texts(v: &Vec<String>) -> (r: Vec<String>)
    ensures
        texts(r@) == texts(v@),
{
    let mut r: Vec<String> = Vec::new();
    let mut i: usize = 0;
    while i < v.len()
        invariant
            i <= v@.len(),
            texts(r@) == texts(v@).take(i as int),
        decreases v@.len() - i,
    {
        let ghost before = texts(r@);
        let c = v[i].clone();
        assert(c@ == v@[i as int]@);
        r.push(c);
        assert(texts(r@) =~= before.push(c@));
        assert(texts(v@).take(i + 1) =~= texts(v@).take(i as int).push(v@[i as int]@));
        i = i + 1;
    }
    assert(texts(v@).take(v@.len() as int) =~= texts(v@));
    r
}


} // verus!
