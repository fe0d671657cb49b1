//! Styling of the messages shown to the user: ANSI colours and the
//! `error:` / `warning:` / `note:` / status prefixes. Whether colours are
//! used is decided by the caller from the terminal's environment.

use vstd::prelude::*;
use vstd::string::*;

use crate::text::{
    append_str, chars_of, join, lemma_join_push, lemma_join_split, occurs_at, occurs_at_exec,
    split, split_exec, starts_with, string_from_chars, views,
};

verus! {

/// Terminal colours.
#[derive(Debug, Clone, Copy, PartialEq, Eq, Structural)]
pub enum Color {
    Green,
    Blue,
    Yellow,
    Red,
    Gray,
    Reset,
}

/// The ANSI escape sequence that selects `c`.
pub open spec fn ansi_code(c: Color) -> Seq<char> {
    match c {
        Color::Green => "\x1b[32m"@,
        Color::Blue => "\x1b[34m"@,
        Color::Yellow => "\x1b[33m"@,
        Color::Red => "\x1b[31m"@,
        Color::Gray => "\x1b[90m"@,
        Color::Reset => "\x1b[0m"@,
    }
}

impl Color {
    /// The ANSI escape sequence that selects this colour.
    pub fn as_ansi_code(self) -> (r: &'static str)
        ensures
            r@ == ansi_code(self),
    {
        match self {
            Color::Green => "\x1b[32m",
            Color::Blue => "\x1b[34m",
            Color::Yellow => "\x1b[33m",
            Color::Red => "\x1b[31m",
            Color::Gray => "\x1b[90m",
            Color::Reset => "\x1b[0m",
        }
    }
}

/// `text` in colour `color`, bold when asked, followed by a reset; the
/// plain text when colours are not used.
pub open spec fn styled(text: Seq<char>, color: Color, is_bold: bool, use_colors: bool) -> Seq<char> {
    if !use_colors {
        text
    } else {
        (if is_bold {
            "\x1b[1m"@
        } else {
            Seq::empty()
        }) + ansi_code(color) + text + ansi_code(Color::Reset)
    }
}

/// Styles `text` with `color` (and bold when asked) when `use_colors`
/// holds; returns it unchanged otherwise.
pub fn style_text(text: &str, color: Color, is_bold: bool, use_colors: bool) -> (r: String)
    ensures
        r@ == styled(text@, color, is_bold, use_colors),
{
    if !use_colors {
        return text.to_owned();
    }
    let mut r = String::new();
    if is_bold {
        append_str(&mut r, "\x1b[1m");
    }
    append_str(&mut r, color.as_ansi_code());
    append_str(&mut r, text);
    append_str(&mut r, Color::Reset.as_ansi_code());
    proof {
        if !is_bold {
            assert(Seq::<char>::empty() + ansi_code(color) =~= ansi_code(color));
        }
    }
    r
}

/// The separator of the sections of a message.
pub open spec fn section_sep() -> Seq<char> {
    "\n\n"@
}

/// A section after the first, styled by what it starts with.
pub open spec fn section_style(part: Seq<char>, use_colors: bool) -> Seq<char> {
    if starts_with(part, "Error:"@) {
        styled(part, Color::Red, false, use_colors)
    } else if starts_with(part, "Details:"@) {
        styled(part, Color::Gray, false, use_colors)
    } else if starts_with(part, "Suggestion:"@) {
        styled(part, Color::Blue, false, use_colors)
    } else {
        part
    }
}

/// The styled sections of an error message: the first behind the `error`
/// label, the others by what they start with.
pub open spec fn error_sections(parts: Seq<Seq<char>>, use_colors: bool) -> Seq<Seq<char>> {
    Seq::new(
        parts.len(),
        |i: int|
            if i == 0 {
                styled("error"@, Color::Red, true, use_colors) + ": "@ + parts[0]
            } else {
                section_style(parts[i], use_colors)
            },
    )
}

/// The text of `format_error` for `message`.
pub open spec fn error_text(message: Seq<char>, use_colors: bool) -> Seq<char> {
    join(error_sections(split(message, section_sep()), use_colors), section_sep())
}

fn section_style_exec(part: &Vec<char>, use_colors: bool) -> (r: String)
    ensures
        r@ == section_style(part@, use_colors),
{
    let s = string_from_chars(part);
    if occurs_at_exec(part, &chars_of("Error:"), 0) {
        style_text(s.as_str(), Color::Red, false, use_colors)
    } else if occurs_at_exec(part, &chars_of("Details:"), 0) {
        style_text(s.as_str(), Color::Gray, false, use_colors)
    } else if occurs_at_exec(part, &chars_of("Suggestion:"), 0) {
        style_text(s.as_str(), Color::Blue, false, use_colors)
    } else {
        s
    }
}

/// Formats an error message: its sections are separated by blank lines;
/// the first is labelled `error`, and the others are coloured by what
/// they start with (`Error:`, `Details:`, `Suggestion:`).
pub fn format_error(message: &str, use_colors: bool) -> (r: String)
    ensures
        r@ == error_text(message@, use_colors),
{
    let v = chars_of(message);
    let sep = chars_of("\n\n");
    proof {
        reveal_strlit("\n\n");
    }
    let parts = split_exec(&v, &sep);
    let ghost p = views(parts@);
    let ghost target = error_sections(p, use_colors);
    proof {
        crate::text::lemma_split_nonempty(v@, sep@, Seq::empty());
    }
    let mut out = style_text("error", Color::Red, true, use_colors);
    append_str(&mut out, ": ");
    let first = string_from_chars(&parts[0]);
    append_str(&mut out, first.as_str());
    assert(target.subrange(0, 1) =~= seq![target[0]]);
    assert(out@ == join(target.subrange(0, 1), sep@));
    let mut k: usize = 1;
    while k < parts.len()
        invariant
            1 <= k <= parts@.len(),
            p == views(parts@),
            sep@ == section_sep(),
            target == error_sections(p, use_colors),
            out@ == join(target.subrange(0, k as int), sep@),
        decreases parts@.len() - k,
    {
        let styled_part = section_style_exec(&parts[k], use_colors);
        proof {
            lemma_join_push(target.subrange(0, k as int), styled_part@, sep@);
            assert(target.subrange(0, k as int).push(styled_part@) =~= target.subrange(0, k + 1));
        }
        append_str(&mut out, "\n\n");
        append_str(&mut out, styled_part.as_str());
        k = k + 1;
    }
    assert(target.subrange(0, parts@.len() as int) =~= target);
    out
}

/// Formats a warning: `warning: ` (styled) before the message.
pub fn format_warning(message: &str, use_colors: bool) -> (r: String)
    ensures
        r@ == styled("warning"@, Color::Yellow, true, use_colors) + ": "@ + message@,
{
    let mut r = style_text("warning", Color::Yellow, true, use_colors);
    append_str(&mut r, ": ");
    append_str(&mut r, message);
    r
}

/// Formats a note: `note: ` (styled) before the message.
pub fn format_note(message: &str, use_colors: bool) -> (r: String)
    ensures
        r@ == styled("note"@, Color::Blue, true, use_colors) + ": "@ + message@,
{
    let mut r = style_text("note", Color::Blue, true, use_colors);
    append_str(&mut r, ": ");
    append_str(&mut r, message);
    r
}

/// Formats a status line: the status (styled), a colon, the message.
pub fn format_status(status: &str, message: &str, use_colors: bool) -> (r: String)
    ensures
        r@ == styled(status@, Color::Green, true, use_colors) + ": "@ + message@,
{
    let mut r = style_text(status, Color::Green, true, use_colors);
    append_str(&mut r, ": ");
    append_str(&mut r, message);
    r
}

/// Without colours, an error message is shown as `error: ` followed by the
/// message exactly as given, sections and all.
pub proof fn law_plain_error_text(message: Seq<char>)
    ensures
        error_text(message, false) == "error: "@ + message,
{
    reveal_strlit("\n\n");
    reveal_strlit("error");
    reveal_strlit(": ");
    reveal_strlit("error: ");
    let sep = section_sep();
    let p = split(message, sep);
    crate::text::lemma_split_nonempty(message, sep, Seq::empty());
    lemma_join_split(message, sep, Seq::empty());
    assert(Seq::<char>::empty() + message =~= message);
    let q = error_sections(p, false);
    assert forall|i: int| 1 <= i < p.len() implies #[trigger] q[i] == p[i] by {
    }
    assert("error"@ + ": "@ =~= "error: "@);
    if p.len() == 1 {
        assert(q[0] =~= "error: "@ + p[0]);
    } else {
        assert(q.skip(1) =~= p.skip(1));
        assert(q[0] =~= "error: "@ + p[0]);
        assert(join(q, sep) =~= "error: "@ + join(p, sep));
    }
}

/// Without colours, styling gives back the text itself.
pub proof fn law_plain_style(text: Seq<char>, color: Color, is_bold: bool)
    ensures
        styled(text, color, is_bold, false) == text,
{
}

} // verus!
