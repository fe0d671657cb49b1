//! The execution journal: the history of tool runs, bounded in length,
//! most recent last.

use vstd::prelude::*;
use vstd::string::*;

use crate::clock::unix_time_secs;
use crate::integration::{lemma_strs_push, strs};
use crate::error::Error;
use crate::paths::{join, join_path};
use crate::Result;

verus! {

/// One tool run, as the journal records it.
#[derive(Debug, Clone)]
pub struct JournalEntry {
    /// Tool name
    pub tool_name: String,
    /// Input hash
    pub input_hash: String,
    /// Command that was executed
    pub command: String,
    /// Arguments that were passed to the command
    pub args: Vec<String>,
    /// Exit code of the command
    pub exit_code: i32,
    /// Whether the result was from cache
    pub from_cache: bool,
    /// Seconds since the Unix epoch when the entry was created
    pub timestamp: u64,
}

/// The number of entries kept when no positive limit is given.
pub const DEFAULT_MAX_ENTRIES: usize = 1000;

/// Where the journal lives and how many entries it keeps.
pub struct Journal {
    journal_path: String,
    max_entries: usize,
}

/// The entries of `entries` whose tool is `tool`, in order.
pub open spec fn entries_for_tool(entries: Seq<JournalEntry>, tool: Seq<char>) -> Seq<JournalEntry>
    decreases entries.len(),
{
    if entries.len() == 0 {
        Seq::empty()
    } else if entries.last().tool_name@ == tool {
        entries_for_tool(entries.drop_last(), tool).push(entries.last())
    } else {
        entries_for_tool(entries.drop_last(), tool)
    }
}

/// The last `limit` entries of `entries` (all of them when there are no
/// more than `limit`).
pub open spec fn keep_last(entries: Seq<JournalEntry>, limit: nat) -> Seq<JournalEntry> {
    if entries.len() > limit {
        entries.skip(entries.len() - limit)
    } else {
        entries
    }
}

impl Journal {
    #[verifier::type_invariant]
    closed spec fn keeps_some(self) -> bool {
        self.max_entries > 0
    }

    /// The number of entries the journal keeps.
    pub closed spec fn limit(&self) -> nat {
        self.max_entries as nat
    }

    /// The journal file.
    pub closed spec fn path_spec(&self) -> Seq<char> {
        self.journal_path@
    }

    /// The journal kept in `journal.json` under `journal_dir`, keeping
    /// `max_entries` entries (1000 when `max_entries` is 0).
    pub fn at(journal_dir: &str, max_entries: usize) -> (r: Self)
        ensures
            r.path_spec() == join_path(journal_dir@, "journal.json"@),
            r.limit() == (if max_entries == 0 {
                DEFAULT_MAX_ENTRIES
            } else {
                max_entries
            }),
    {
        let max_entries = if max_entries == 0 {
            DEFAULT_MAX_ENTRIES
        } else {
            max_entries
        };
        Journal { journal_path: join(journal_dir, "journal.json"), max_entries }
    }

    /// The journal file.
    pub fn journal_path(&self) -> (r: &str)
        ensures
            r@ == self.path_spec(),
    {
        self.journal_path.as_str()
    }

    /// The number of entries the journal keeps.
    pub fn max_entries(&self) -> (r: usize)
        ensures
            r == self.limit(),
            r > 0,
    {
        proof {
            use_type_invariant(self);
        }
        self.max_entries
    }

    /// The entries to store once `entry` is recorded after `entries`: the
    /// most recent ones, as many as the journal keeps.
    pub fn add_entry(&self, entries: Vec<JournalEntry>, entry: JournalEntry) -> (r: Vec<JournalEntry>)
        ensures
            r@ == keep_last(entries@.push(entry), self.limit()),
    {
        proof {
            use_type_invariant(self);
        }
        let mut entries = entries;
        entries.push(entry);
        if entries.len() > self.max_entries {
            let at = entries.len() - self.max_entries;
            let kept = entries.split_off(at);
            kept
        } else {
            entries
        }
    }

    /// The entries of tool `tool_name`, in order.
    pub fn get_entries_for_tool(&self, entries: Vec<JournalEntry>, tool_name: &str) -> (r: Vec<JournalEntry>)
        ensures
            r@ == entries_for_tool(entries@, tool_name@),
    {
        filter_for_tool(entries, tool_name)
    }
}

/// The entries of tool `tool_name`, in order.
pub fn filter_for_tool(entries: Vec<JournalEntry>, tool_name: &str) -> (r: Vec<JournalEntry>)
    ensures
        r@ == entries_for_tool(entries@, tool_name@),
{
    {
        let key = tool_name.to_owned();
        let ghost all = entries@;
        let mut rest = entries;
        let mut out: Vec<JournalEntry> = Vec::new();
        let mut k: usize = 0;
        assert(all.subrange(0, 0) =~= Seq::<JournalEntry>::empty());
        let total = rest.len();
        while rest.len() > 0
            invariant
                total == all.len(),
                k + rest@.len() == all.len(),
                rest@ == all.skip(k as int),
                key@ == tool_name@,
                out@ == entries_for_tool(all.subrange(0, k as int), tool_name@),
            decreases rest@.len(),
        {
            let e = rest.remove(0);
            assert(e == all[k as int]);
            assert(all.subrange(0, k + 1).drop_last() =~= all.subrange(0, k as int));
            if e.tool_name == key {
                out.push(e);
            }
            k = k + 1;
            assert(rest@ =~= all.skip(k as int));
        }
        assert(all.subrange(0, all.len() as int) =~= all);
        out
    }
}

impl Journal {
    /// A journal entry for a run of `command` with `args` by tool
    /// `tool_name`, stamped with the current time.
    pub fn create_entry(tool_name: &str, input_hash: &str, command: &str, args: &[String], exit_code: i32, from_cache: bool) -> (e: JournalEntry)
        ensures
            e.tool_name@ == tool_name@,
            e.input_hash@ == input_hash@,
            e.command@ == command@,
            strs(e.args@) == strs(args@),
            e.exit_code == exit_code,
            e.from_cache == from_cache,
    {
        JournalEntry {
            tool_name: tool_name.to_owned(),
            input_hash: input_hash.to_owned(),
            command: command.to_owned(),
            args: copy_slice(args),
            exit_code,
            from_cache,
            timestamp: unix_time_secs(),
        }
    }
}

/// A copy of a slice of strings.
pub(crate) fn copy_slice(v: &[String]) -> (r: Vec<String>)
    ensures
        strs(r@) == strs(v@),
{
    let mut r: Vec<String> = Vec::new();
    let mut i: usize = 0;
    while i < v.len()
        invariant
            i <= v@.len(),
            strs(r@) == strs(v@).subrange(0, i as int),
        decreases v@.len() - i,
    {
        let ghost before = r@;
        let c = v[i].clone();
        r.push(c);
        proof {
            lemma_strs_push(before, c);
        }
        i = i + 1;
        assert(strs(r@) =~= strs(v@).subrange(0, i as int));
    }
    assert(strs(v@).subrange(0, v@.len() as int) =~= strs(v@));
    r
}

/// However many entries are recorded, the journal never holds more than
/// its limit, and the entry recorded last is the last one kept.
pub proof fn law_journal_bounded(entries: Seq<JournalEntry>, entry: JournalEntry, limit: nat)
    requires
        limit > 0,
    ensures
        keep_last(entries.push(entry), limit).len() <= limit,
        keep_last(entries.push(entry), limit).last() == entry,
{
}


/// Whether a directory that keeps records (the journal's or the cache's,
/// named by `what`) must be created: yes when it is missing; an existing
/// path that is not a directory is refused.
pub fn storage_dir_verdict(what: &str, dir: &str, exists: bool, is_dir: bool) -> (r: Result<bool>)
    ensures
        !exists ==> r == Ok::<bool, Error>(true),
        exists && is_dir ==> r == Ok::<bool, Error>(false),
        exists && !is_dir ==> (r matches Err(Error::Config { message }) && message@ == what@
            + " path exists but is not a directory: "@ + dir@),
{
    if !exists {
        return Ok(true);
    }
    if is_dir {
        return Ok(false);
    }
    let mut m = what.to_owned();
    m.append(" path exists but is not a directory: ");
    m.append(dir);
    Err(Error::Config { message: m })
}

} // verus!
