//! The history report of tool runs and the message after the cache is
//! cleared.

use vstd::prelude::*;
use vstd::string::*;

use crate::integration::strs;
use crate::journal::{entries_for_tool, filter_for_tool, JournalEntry};
use crate::progress::{format_note, format_status, style_text, styled, Color};
use crate::text::{append_str, decimal, decimal_string, join};

verus! {

/// The latest timestamp, in seconds since the Unix epoch, that can be
/// shown as a date: the last second of the year 262142, the last date
/// that chrono represents.
pub const MAX_TIMESTAMP: u64 = 8_210_266_876_799;

/// The UTC date and time of `timestamp` (seconds since the Unix epoch) in
/// the form `%Y-%m-%d %H:%M:%S`, as chrono formats it.
pub uninterp spec fn utc_datetime_text(timestamp: u64) -> Seq<char>;

/// Converts `timestamp` seconds after `std::time::UNIX_EPOCH` into a
/// `chrono::DateTime<Utc>` and formats it with `%Y-%m-%d %H:%M:%S`. The
/// result depends on the timestamp alone (UTC, no time zone); it is named,
/// not restated. Past `MAX_TIMESTAMP` chrono's date range is left, where
/// the conversion panics, so such timestamps are not admitted.
#[verifier::external_body]
fn chrono_utc_text(timestamp: u64) -> (r: String)
    requires
        timestamp <= MAX_TIMESTAMP,
    ensures
        r@ == utc_datetime_text(timestamp),
{
    let time = std::time::UNIX_EPOCH + std::time::Duration::from_secs(timestamp);
    chrono::DateTime::<chrono::Utc>::from(time).format("%Y-%m-%d %H:%M:%S").to_string()
}

/// The UTC date and time of `timestamp`, as `YYYY-MM-DD HH:MM:SS`.
pub fn format_timestamp(timestamp: u64) -> (r: String)
    requires
        timestamp <= MAX_TIMESTAMP,
    ensures
        r@ == utc_datetime_text(timestamp),
{
    chrono_utc_text(timestamp)
}

/// The status word of an entry.
pub open spec fn status_text(e: JournalEntry, use_colors: bool) -> Seq<char> {
    if e.exit_code == 0 {
        styled("SUCCESS"@, Color::Green, false, use_colors)
    } else {
        styled("FAILED"@, Color::Red, false, use_colors)
    }
}

/// The line that shows an entry.
pub open spec fn entry_line(e: JournalEntry, verbose: bool, use_colors: bool) -> Seq<char> {
    entry_line_at(utc_datetime_text(e.timestamp), e, verbose, use_colors)
}

/// The arguments joined with single spaces.
fn join_args(args: &Vec<String>) -> (r: String)
    ensures
        r@ == join(strs(args@), " "@),
{
    let mut r = String::new();
    let mut i: usize = 0;
    assert(strs(args@).subrange(0, 0) =~= Seq::<Seq<char>>::empty());
    while i < args.len()
        invariant
            i <= args@.len(),
            r@ == join(strs(args@).subrange(0, i as int), " "@),
        decreases args@.len() - i,
    {
        let ghost done = strs(args@).subrange(0, i as int);
        if i > 0 {
            append_str(&mut r, " ");
            proof {
                crate::text::lemma_join_push(done, args@[i as int]@, " "@);
            }
        } else {
            assert(done =~= Seq::<Seq<char>>::empty());
            assert(strs(args@).subrange(0, 1) =~= seq![args@[0]@]);
        }
        append_str(&mut r, args[i].as_str());
        assert(strs(args@).subrange(0, i + 1) =~= done.push(args@[i as int]@));
        i = i + 1;
    }
    assert(strs(args@).subrange(0, args@.len() as int) =~= strs(args@));
    r
}

/// The line that shows `entry` once its time is written as `time`.
pub open spec fn entry_line_at(time: Seq<char>, e: JournalEntry, verbose: bool, use_colors: bool) -> Seq<char> {
    let cache = if e.from_cache {
        styled("(cached)"@, Color::Blue, false, use_colors)
    } else {
        Seq::empty()
    };
    let base = time + " | "@ + status_text(e, use_colors) + " "@ + cache + " | Tool: "@
        + e.tool_name@;
    if verbose {
        base + " | Command: "@ + e.command@ + " "@ + join(strs(e.args@), " "@) + " | Hash: "@
            + e.input_hash@
    } else {
        base
    }
}

/// The line that shows `entry`, its time written as `time`, with the
/// command, its arguments and the input hash when `verbose`.
pub fn journal_line_at(time: &str, entry: &JournalEntry, verbose: bool, use_colors: bool) -> (r: String)
    ensures
        r@ == entry_line_at(time@, *entry, verbose, use_colors),
{
    let mut r = time.to_owned();
    append_str(&mut r, " | ");
    let status = if entry.exit_code == 0 {
        style_text("SUCCESS", Color::Green, false, use_colors)
    } else {
        style_text("FAILED", Color::Red, false, use_colors)
    };
    append_str(&mut r, status.as_str());
    append_str(&mut r, " ");
    if entry.from_cache {
        let cached = style_text("(cached)", Color::Blue, false, use_colors);
        append_str(&mut r, cached.as_str());
    }
    append_str(&mut r, " | Tool: ");
    append_str(&mut r, entry.tool_name.as_str());
    if verbose {
        append_str(&mut r, " | Command: ");
        append_str(&mut r, entry.command.as_str());
        append_str(&mut r, " ");
        let args = join_args(&entry.args);
        append_str(&mut r, args.as_str());
        append_str(&mut r, " | Hash: ");
        append_str(&mut r, entry.input_hash.as_str());
    }
    r
}

/// The line that shows `entry`, with the command, its arguments and the
/// input hash when `verbose`.
pub fn format_journal_entry(entry: &JournalEntry, verbose: bool, use_colors: bool) -> (r: String)
    requires
        entry.timestamp <= MAX_TIMESTAMP,
    ensures
        r@ == entry_line(*entry, verbose, use_colors),
{
    let time = format_timestamp(entry.timestamp);
    journal_line_at(time.as_str(), entry, verbose, use_colors)
}

/// The entries that a report of at most `limit` entries shows: the last
/// ones.
pub open spec fn shown_entries(entries: Seq<JournalEntry>, limit: nat) -> Seq<JournalEntry> {
    if entries.len() > limit {
        entries.skip(entries.len() - limit)
    } else {
        entries
    }
}

/// The entries a history report is about: those of `tool` when one is
/// given, all of them otherwise.
pub open spec fn selected(entries: Seq<JournalEntry>, tool: Option<Seq<char>>) -> Seq<JournalEntry> {
    match tool {
        Some(t) => entries_for_tool(entries, t),
        None => entries,
    }
}

/// The tool name given, as text.
pub open spec fn tool_view(tool: Option<&str>) -> Option<Seq<char>> {
    match tool {
        Some(t) => Some(t@),
        None => None,
    }
}

/// The header line of a history report.
pub open spec fn history_header(verbose: bool) -> Seq<char> {
    if verbose {
        "TIMESTAMP | STATUS | TOOL | COMMAND | HASH"@
    } else {
        "TIMESTAMP | STATUS | TOOL"@
    }
}

/// The note given when there is no history to show.
pub open spec fn empty_history_note(tool: Option<Seq<char>>) -> Seq<char> {
    match tool {
        Some(t) => "No history found for tool '"@ + t + "'"@,
        None => "No command history found"@,
    }
}

/// The lines that show the history of tool runs in `entries` (of `tool`
/// only when one is given), most recent last, at most `limit` of them:
/// either one note that there is none, or a header, the entries, and a
/// note saying how many of how many are shown. The caller prints them.
pub fn show_history(tool: Option<&str>, limit: usize, entries: Vec<JournalEntry>, verbose: bool, use_colors: bool) -> (r: Vec<String>)
    requires
        forall|i: int|
            0 <= i < shown_entries(selected(entries@, tool_view(tool)), limit as nat).len()
                ==> #[trigger] shown_entries(selected(entries@, tool_view(tool)), limit as nat)[i].timestamp
                <= MAX_TIMESTAMP,
    ensures
        ({
            let sel = selected(entries@, tool_view(tool));
            let shown = shown_entries(sel, limit as nat);
            if sel.len() == 0 {
                r@.len() == 1 && r@[0]@ == styled("note"@, Color::Blue, true, use_colors) + ": "@
                    + empty_history_note(tool_view(tool))
            } else {
                &&& r@.len() == shown.len() + 2
                &&& r@[0]@ == styled(history_header(verbose), Color::Blue, true, use_colors)
                &&& forall|i: int| 0 <= i < shown.len() ==> #[trigger] r@[i + 1]@ == entry_line(shown[i], verbose, use_colors)
                &&& r@[shown.len() + 1int]@ == styled("note"@, Color::Blue, true, use_colors) + ": "@
                    + "Showing "@ + decimal(shown.len()) + " of "@ + decimal(sel.len()) + " entries"@
            }
        }),
{
    let ghost tv = tool_view(tool);
    let sel = match tool {
        Some(t) => filter_for_tool(entries, t),
        None => entries,
    };
    assert(sel@ == selected(entries@, tv));
    let mut lines: Vec<String> = Vec::new();
    if sel.len() == 0 {
        let message = match tool {
            Some(t) => {
                let mut m = String::from_str("No history found for tool '");
                append_str(&mut m, t);
                append_str(&mut m, "'");
                m
            },
            None => String::from_str("No command history found"),
        };
        lines.push(format_note(message.as_str(), use_colors));
        return lines;
    }
    let header = if verbose {
        "TIMESTAMP | STATUS | TOOL | COMMAND | HASH"
    } else {
        "TIMESTAMP | STATUS | TOOL"
    };
    lines.push(style_text(header, Color::Blue, true, use_colors));
    let total = sel.len();
    let start = if total > limit {
        total - limit
    } else {
        0
    };
    let ghost shown = shown_entries(sel@, limit as nat);
    assert(shown =~= sel@.skip(start as int));
    let mut i = start;
    while i < total
        invariant
            start <= i <= total,
            total == sel@.len(),
            shown == sel@.skip(start as int),
            lines@.len() == i - start + 1,
            lines@[0]@ == styled(history_header(verbose), Color::Blue, true, use_colors),
            forall|k: int| 0 <= k < shown.len() ==> #[trigger] shown[k].timestamp <= MAX_TIMESTAMP,
            forall|k: int| 0 <= k < i - start ==> #[trigger] lines@[k + 1]@ == entry_line(shown[k], verbose, use_colors),
        decreases total - i,
    {
        assert(shown[i - start] == sel@[i as int]);
        let line = format_journal_entry(&sel[i], verbose, use_colors);
        lines.push(line);
        i = i + 1;
    }
    let shown_count = total - start;
    let mut summary = String::from_str("Showing ");
    let a = decimal_string(shown_count as u64);
    append_str(&mut summary, a.as_str());
    append_str(&mut summary, " of ");
    let b = decimal_string(total as u64);
    append_str(&mut summary, b.as_str());
    append_str(&mut summary, " entries");
    lines.push(format_note(summary.as_str(), use_colors));
    lines
}

/// The entries that a history report shows (see `show_history`): those of
/// `tool` when one is given, the last `limit` of them. A caller tests their
/// timestamps before asking for the report.
pub fn shown_history_entries(tool: Option<&str>, limit: usize, entries: Vec<JournalEntry>) -> (r: Vec<JournalEntry>)
    ensures
        r@ == shown_entries(selected(entries@, tool_view(tool)), limit as nat),
{
    let ghost tv = tool_view(tool);
    let sel = match tool {
        Some(t) => filter_for_tool(entries, t),
        None => entries,
    };
    assert(sel@ == selected(entries@, tv));
    let total = sel.len();
    let start = if total > limit {
        total - limit
    } else {
        0
    };
    let mut sel = sel;
    let ghost all = sel@;
    let r = sel.split_off(start);
    assert(shown_entries(all, limit as nat) =~= all.subrange(start as int, total as int));
    r
}

/// The status line shown after `count` cache entries were cleared, for
/// one tool or for all of them.
pub fn clear_cache_message(tool: Option<&str>, count: usize, use_colors: bool) -> (r: String)
    ensures
        r@ == styled("Cleared"@, Color::Green, true, use_colors) + ": "@ + match tool {
            Some(t) => "Cleared "@ + decimal(count as nat) + " cache entries for tool '"@ + t@ + "'"@,
            None => "Cleared "@ + decimal(count as nat) + " cache entries"@,
        },
{
    let mut m = String::from_str("Cleared ");
    let n = decimal_string(count as u64);
    append_str(&mut m, n.as_str());
    match tool {
        Some(t) => {
            append_str(&mut m, " cache entries for tool '");
            append_str(&mut m, t);
            append_str(&mut m, "'");
        },
        None => {
            append_str(&mut m, " cache entries");
        },
    }
    format_status("Cleared", m.as_str(), use_colors)
}

} // verus!
