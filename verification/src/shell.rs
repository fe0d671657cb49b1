//! Messages in the style of Cargo's shell: a status word, right-aligned or
//! followed by a colon, then the message; and the answer to a yes/no
//! question.

use vstd::prelude::*;
use vstd::string::*;

use crate::text::{chars_of, is_unicode_whitespace, is_unicode_whitespace_exec, push_char};

verus! {

/// The width that a right-aligned status word fills.
pub const STATUS_WIDTH: usize = 12;

/// `n` spaces.
pub open spec fn spaces(n: nat) -> Seq<char> {
    Seq::new(n, |i: int| ' ')
}

/// `s` right-aligned in `w` columns (as `{:>w}` formats it).
pub open spec fn pad_left(s: Seq<char>, w: nat) -> Seq<char> {
    if s.len() >= w {
        s
    } else {
        spaces((w - s.len()) as nat) + s
    }
}

/// The status as it is shown before a message: right-aligned in
/// `STATUS_WIDTH` columns when `justified`, else followed by a colon.
pub open spec fn column_text(status: Seq<char>, justified: bool) -> Seq<char> {
    if justified {
        pad_left(status, STATUS_WIDTH as nat)
    } else {
        status + ":"@
    }
}

/// The line that shows `message` under `status`.
pub open spec fn shell_text(status: Seq<char>, message: Seq<char>, justified: bool) -> Seq<char> {
    column_text(status, justified) + " "@ + message
}

/// The status as it is shown before a message (see `column_text`).
pub fn status_column(status: &str, justified: bool) -> (r: String)
    ensures
        r@ == column_text(status@, justified),
{
    let mut r = String::new();
    if justified {
        let n = chars_of(status).len();
        let mut k: usize = n;
        while k < STATUS_WIDTH
            invariant
                n <= k <= STATUS_WIDTH || (n > STATUS_WIDTH && k == n),
                n == status@.len(),
                r@ == spaces((k - n) as nat),
            decreases STATUS_WIDTH - k,
        {
            push_char(&mut r, ' ');
            assert(r@ =~= spaces((k + 1 - n) as nat));
            k = k + 1;
        }
        proof {
            if n >= STATUS_WIDTH {
                assert(r@ =~= Seq::<char>::empty());
            }
        }
        r.append(status);
        proof {
            if n >= STATUS_WIDTH {
                assert(r@ =~= status@);
            } else {
                assert(r@ =~= spaces((STATUS_WIDTH - n) as nat) + status@);
            }
        }
    } else {
        r.append(status);
        r.append(":");
    }
    r
}

/// The line that shows `message` under `status` (see `shell_text`).
pub fn shell_line(status: &str, message: &str, justified: bool) -> (r: String)
    ensures
        r@ == shell_text(status@, message@, justified),
{
    let mut r = status_column(status, justified);
    r.append(" ");
    r.append(message);
    r
}

/// The line of an action and what it works on.
pub fn status_line(action: &str, message: &str) -> (r: String)
    ensures
        r@ == shell_text(action@, message@, true),
{
    shell_line(action, message, true)
}

/// The line of an error.
pub fn error_line(message: &str) -> (r: String)
    ensures
        r@ == shell_text("error"@, message@, false),
{
    shell_line("error", message, false)
}

/// The line of a warning.
pub fn warn_line(message: &str) -> (r: String)
    ensures
        r@ == shell_text("warning"@, message@, false),
{
    shell_line("warning", message, false)
}

/// The line of a note.
pub fn note_line(message: &str) -> (r: String)
    ensures
        r@ == shell_text("note"@, message@, false),
{
    shell_line("note", message, false)
}

/// The question that asks for a yes or no.
pub fn prompt_line(prompt: &str) -> (r: String)
    ensures
        r@ == prompt@ + " [y/N] "@,
{
    let mut r = prompt.to_owned();
    r.append(" [y/N] ");
    r
}

/// `answer` says yes: once white space is trimmed off, it is `y` in either
/// case.
pub open spec fn is_yes(answer: Seq<char>) -> bool {
    exists|i: int|
        0 <= i < answer.len() && (answer[i] == 'y' || answer[i] == 'Y') && forall|j: int|
            0 <= j < answer.len() && j != i ==> is_unicode_whitespace(#[trigger] answer[j])
}

/// Whether `answer` says yes (see `is_yes`).
pub fn confirms(answer: &str) -> (r: bool)
    ensures
        r == is_yes(answer@),
{
    let v = chars_of(answer);
    let mut first: Option<usize> = None;
    let mut more = false;
    let mut i: usize = 0;
    while i < v.len()
        invariant
            i <= v@.len(),
            v@ == answer@,
            match first {
                None => !more && forall|j: int| 0 <= j < i ==> is_unicode_whitespace(#[trigger] v@[j]),
                Some(k) => k < i && !is_unicode_whitespace(v@[k as int]) && (!more ==> forall|j: int|
                    0 <= j < i && j != k ==> is_unicode_whitespace(#[trigger] v@[j])) && (more
                    ==> exists|j: int| 0 <= j < i && j != k && !is_unicode_whitespace(#[trigger] v@[j])),
            },
        decreases v@.len() - i,
    {
        if !is_unicode_whitespace_exec(v[i]) {
            match first {
                None => {
                    first = Some(i);
                },
                Some(k) => {
                    assert(i != k && !is_unicode_whitespace(v@[i as int]));
                    more = true;
                },
            }
        }
        i = i + 1;
    }
    match first {
        None => {
            assert(!is_yes(answer@)) by {
                if is_yes(answer@) {
                    let w = choose|w: int|
                        0 <= w < answer@.len() && (answer@[w] == 'y' || answer@[w] == 'Y') && forall|j: int|
                            0 <= j < answer@.len() && j != w ==> is_unicode_whitespace(#[trigger] answer@[j]);
                    assert(is_unicode_whitespace(v@[w]));
                }
            }
            false
        },
        Some(k) => {
            if more {
                assert(!is_yes(answer@)) by {
                    if is_yes(answer@) {
                        let w = choose|w: int|
                            0 <= w < answer@.len() && (answer@[w] == 'y' || answer@[w] == 'Y') && forall|j: int|
                                0 <= j < answer@.len() && j != w ==> is_unicode_whitespace(#[trigger] answer@[j]);
                        let j2 = choose|j: int| 0 <= j < v@.len() && j != k && !is_unicode_whitespace(#[trigger] v@[j]);
                        if w != k {
                            assert(is_unicode_whitespace(answer@[k as int]));
                        } else {
                            assert(is_unicode_whitespace(answer@[j2]));
                        }
                    }
                }
                false
            } else {
                let c = v[k];
                let yes = c == 'y' || c == 'Y';
                proof {
                    if yes {
                        assert(0 <= k < answer@.len() && (answer@[k as int] == 'y' || answer@[k as int] == 'Y'));
                        assert(forall|j: int| 0 <= j < answer@.len() && j != k ==> is_unicode_whitespace(#[trigger] answer@[j]));
                    } else {
                        assert(!is_yes(answer@)) by {
                            if is_yes(answer@) {
                                let w = choose|w: int|
                                    0 <= w < answer@.len() && (answer@[w] == 'y' || answer@[w] == 'Y') && forall|j: int|
                                        0 <= j < answer@.len() && j != w ==> is_unicode_whitespace(#[trigger] answer@[j]);
                                if w != k {
                                    assert(is_unicode_whitespace(answer@[k as int]));
                                } else {
                                    assert(answer@[w] == c);
                                }
                            }
                        }
                    }
                }
                yes
            }
        },
    }
}

} // verus!
