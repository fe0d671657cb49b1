//! The cache of tool runs: one file per tool and input hash.

use vstd::prelude::*;
use vstd::string::*;

use crate::clock::unix_time_secs;
use crate::fs_query::path_exists;
use crate::integration::strs;
use crate::journal::copy_slice;
use crate::paths::{join, join_path};
use crate::text::append_str;

verus! {

/// A cached tool run.
#[derive(Debug, Clone)]
pub struct CacheEntry {
    /// Tool name
    pub tool_name: String,
    /// Input hash
    pub input_hash: String,
    /// Command that was executed
    pub command: String,
    /// Arguments that were passed to the command
    pub args: Vec<String>,
    /// Exit code of the command
    pub exit_code: i32,
    /// Seconds since the Unix epoch when the entry was created
    pub timestamp: u64,
}

/// The directory that holds the cache.
pub struct Cache {
    cache_dir: String,
}

/// The file that holds the entry of `tool` for `hash`:
/// `<dir>/<tool>_<hash>.json`.
pub open spec fn cache_path(dir: Seq<char>, tool: Seq<char>, hash: Seq<char>) -> Seq<char> {
    join_path(dir, tool + "_"@ + hash + ".json"@)
}

impl Cache {
    /// The cache directory.
    pub closed spec fn dir(&self) -> Seq<char> {
        self.cache_dir@
    }

    /// The cache kept in `cache_dir`.
    pub fn at(cache_dir: &str) -> (r: Self)
        ensures
            r.dir() == cache_dir@,
    {
        Cache { cache_dir: cache_dir.to_owned() }
    }

    /// The cache directory.
    pub fn cache_dir(&self) -> (r: &str)
        ensures
            r@ == self.dir(),
    {
        self.cache_dir.as_str()
    }

    /// The file that holds the entry of `tool_name` for `input_hash`.
    pub fn get_cache_path(&self, tool_name: &str, input_hash: &str) -> (r: String)
        ensures
            r@ == cache_path(self.dir(), tool_name@, input_hash@),
    {
        let mut file = tool_name.to_owned();
        append_str(&mut file, "_");
        append_str(&mut file, input_hash);
        append_str(&mut file, ".json");
        join(self.cache_dir.as_str(), file.as_str())
    }

    /// Whether an entry of `tool_name` for `input_hash` is stored; the
    /// answer depends on the disk.
    pub fn has_entry(&self, tool_name: &str, input_hash: &str) -> bool {
        let path = self.get_cache_path(tool_name, input_hash);
        path_exists(path.as_str())
    }

    /// A cache entry for a run of `command` with `args` by tool
    /// `tool_name`, stamped with the current time.
    pub fn create_entry(tool_name: &str, input_hash: &str, command: &str, args: &[String], exit_code: i32) -> (e: CacheEntry)
        ensures
            e.tool_name@ == tool_name@,
            e.input_hash@ == input_hash@,
            e.command@ == command@,
            strs(e.args@) == strs(args@),
            e.exit_code == exit_code,
    {
        CacheEntry {
            tool_name: tool_name.to_owned(),
            input_hash: input_hash.to_owned(),
            command: command.to_owned(),
            args: copy_slice(args),
            exit_code,
            timestamp: unix_time_secs(),
        }
    }
}


/// The most entries one clearing of the cache removes.
pub const MAX_CLEARED: usize = 10000;

/// The extension of the file name `name` (the rule of `Path::extension`):
/// what follows its last `.`, unless there is none or the only one starts
/// the name.
pub open spec fn extension_of(name: Seq<char>) -> Option<Seq<char>> {
    if exists|k: int| 0 < k < name.len() && name[k] == '.' {
        let k = choose|k: int|
            0 < k < name.len() && name[k] == '.' && forall|j: int| k < j < name.len() ==> name[j] != '.';
        Some(name.skip(k + 1))
    } else {
        None
    }
}

/// Whether a directory entry is a cache entry to remove: a file with the
/// `json` extension, and, when a tool is named, whose name starts with the
/// tool's name and `_`.
pub open spec fn removable(name: Seq<char>, is_file: bool, tool: Option<Seq<char>>) -> bool {
    &&& is_file
    &&& extension_of(name) == Some("json"@)
    &&& match tool {
        Some(t) => crate::text::occurs_at(name, t + "_"@, 0),
        None => true,
    }
}

/// The cache files removed from a listing, in order, and whether the limit
/// was hit with entries left.
pub open spec fn clearing(listing: Seq<(Seq<char>, bool)>, tool: Option<Seq<char>>) -> (Seq<Seq<char>>, bool)
    decreases listing.len(),
{
    if listing.len() == 0 {
        (Seq::empty(), false)
    } else {
        let before = clearing(listing.drop_last(), tool);
        if before.1 {
            before
        } else if before.0.len() >= MAX_CLEARED {
            (before.0, true)
        } else if removable(listing.last().0, listing.last().1, tool) {
            (before.0.push(listing.last().0), false)
        } else {
            before
        }
    }
}

fn last_dot(v: &Vec<char>) -> (r: Option<usize>)
    ensures
        match r {
            Some(k) => 0 < k < v@.len() && v@[k as int] == '.' && forall|j: int| k < j < v@.len() ==> v@[j] != '.',
            None => !exists|k: int| 0 < k < v@.len() && v@[k] == '.',
        },
{
    let mut i = v.len();
    while i > 1
        invariant
            i <= v@.len(),
            forall|j: int| i <= j < v@.len() ==> v@[j] != '.',
        decreases i,
    {
        if v[i - 1] == '.' {
            return Some(i - 1);
        }
        i = i - 1;
    }
    proof {
        assert forall|k: int| 0 < k < v@.len() implies v@[k] != '.' by {
            assert(k >= i);
        }
    }
    None
}

fn is_removable(name: &str, is_file: bool, tool: Option<&str>) -> (b: bool)
    ensures
        b == removable(name@, is_file, match tool {
            Some(t) => Some(t@),
            None => None,
        }),
{
    if !is_file {
        return false;
    }
    let v = crate::text::chars_of(name);
    let ld = last_dot(&v);
    let k = match ld {
        None => {
            return false;
        },
        Some(k) => k,
    };
    proof {
        let w = choose|w: int|
            0 < w < v@.len() && v@[w] == '.' && forall|j: int| w < j < v@.len() ==> v@[j] != '.';
        assert(w == k as int) by {
            if w < k {
                assert(v@[k as int] != '.');
            }
            if w > k {
                assert(v@[w] != '.');
            }
        }
        assert(extension_of(name@) == Some(v@.skip(k + 1)));
    }
    let n = v.len();
    assert(k < n);
    let ext = crate::text::sub_chars(&v, k + 1, n);
    assert(ext@ =~= v@.skip(k + 1));
    let json = crate::text::chars_of("json");
    proof {
        reveal_strlit("json");
    }
    if !(ext.len() == 4 && crate::text::occurs_at_exec(&ext, &json, 0)) {
        assert(ext@ != "json"@) by {
            if ext@ == "json"@ {
                assert(ext@.subrange(0, 4) =~= ext@);
            }
        }
        return false;
    }
    assert(ext@ =~= "json"@) by {
        assert(ext@.subrange(0, 4) == json@);
    }
    assert(extension_of(name@) == Some("json"@));
    match tool {
        None => true,
        Some(t) => {
            let mut prefix = t.to_owned();
            crate::text::push_char(&mut prefix, '_');
            proof {
                reveal_strlit("_");
                assert(prefix@ =~= t@ + "_"@);
            }
            let p = crate::text::chars_of(prefix.as_str());
            crate::text::occurs_at_exec(&v, &p, 0)
        },
    }
}

/// The cache files to remove from a directory listing of (name, is a
/// file) pairs, in order: the `json` files, of the named tool only when
/// one is given, at most `MAX_CLEARED` of them; the flag says the limit
/// was reached with entries left, which is an error after the removals.
pub fn files_to_clear(listing: &Vec<(String, bool)>, tool: Option<&str>) -> (r: (Vec<String>, bool))
    ensures
        (crate::integration::strs(r.0@), r.1) == clearing(
            Seq::new(listing@.len(), |i: int| (listing@[i].0@, listing@[i].1)),
            match tool {
                Some(t) => Some(t@),
                None => None,
            },
        ),
{
    let ghost tv = match tool {
        Some(t) => Some(t@),
        None => None,
    };
    let ghost all = Seq::new(listing@.len(), |i: int| (listing@[i].0@, listing@[i].1));
    let mut out: Vec<String> = Vec::new();
    let mut i: usize = 0;
    assert(all.subrange(0, 0) =~= Seq::<(Seq<char>, bool)>::empty());
    while i < listing.len()
        invariant
            i <= listing@.len(),
            all == Seq::new(listing@.len(), |i: int| (listing@[i].0@, listing@[i].1)),
            tv == match tool {
                Some(t) => Some(t@),
                None => None::<Seq<char>>,
            },
            (crate::integration::strs(out@), false) == clearing(all.subrange(0, i as int), tv),
            out@.len() <= MAX_CLEARED,
        decreases listing@.len() - i,
    {
        let ghost pre = all.subrange(0, i as int);
        assert(all.subrange(0, i + 1).drop_last() =~= pre);
        assert(all.subrange(0, i + 1).last() == (listing@[i as int].0@, listing@[i as int].1));
        if out.len() >= MAX_CLEARED {
            proof {
                lemma_clearing_stops(all, tv, i as int + 1);
            }
            assert(all.subrange(0, listing@.len() as int) =~= all);
            return (out, true);
        }
        if is_removable(listing[i].0.as_str(), listing[i].1, tool) {
            let ghost before = out@;
            let name = listing[i].0.clone();
            out.push(name);
            proof {
                crate::integration::lemma_strs_push(before, name);
            }
        }
        i = i + 1;
    }
    assert(all.subrange(0, listing@.len() as int) =~= all);
    (out, false)
}

proof fn lemma_clearing_stops(all: Seq<(Seq<char>, bool)>, tool: Option<Seq<char>>, k: int)
    requires
        1 <= k <= all.len(),
        clearing(all.subrange(0, k - 1), tool).0.len() >= MAX_CLEARED,
        !clearing(all.subrange(0, k - 1), tool).1,
    ensures
        clearing(all, tool) == (clearing(all.subrange(0, k - 1), tool).0, true),
    decreases all.len() - k,
{
    let s = all.subrange(0, k);
    assert(s.drop_last() =~= all.subrange(0, k - 1));
    assert(clearing(s, tool) == (clearing(all.subrange(0, k - 1), tool).0, true));
    if k < all.len() {
        lemma_clearing_done(all, tool, k + 1, clearing(all.subrange(0, k - 1), tool).0);
        assert(all.subrange(0, all.len() as int) =~= all);
    } else {
        assert(s =~= all);
    }
}

proof fn lemma_clearing_done(all: Seq<(Seq<char>, bool)>, tool: Option<Seq<char>>, k: int, kept: Seq<Seq<char>>)
    requires
        1 <= k <= all.len(),
        clearing(all.subrange(0, k - 1), tool) == (kept, true),
    ensures
        clearing(all, tool) == (kept, true),
    decreases all.len() - k,
{
    let s = all.subrange(0, k);
    assert(s.drop_last() =~= all.subrange(0, k - 1));
    if k < all.len() {
        lemma_clearing_done(all, tool, k + 1, kept);
    } else {
        assert(s =~= all);
    }
}


/// One clearing of the cache removes at most `MAX_CLEARED` files, and only
/// files that it may remove.
pub proof fn law_clearing_bounded(listing: Seq<(Seq<char>, bool)>, tool: Option<Seq<char>>)
    ensures
        clearing(listing, tool).0.len() <= MAX_CLEARED,
        forall|i: int| 0 <= i < clearing(listing, tool).0.len() ==> exists|j: int|
            0 <= j < listing.len() && #[trigger] clearing(listing, tool).0[i] == listing[j].0
                && removable(listing[j].0, listing[j].1, tool),
    decreases listing.len(),
{
    if listing.len() > 0 {
        let pre = listing.drop_last();
        law_clearing_bounded(pre, tool);
        let before = clearing(pre, tool);
        let now = clearing(listing, tool);
        assert forall|i: int| 0 <= i < now.0.len() implies exists|j: int|
            0 <= j < listing.len() && #[trigger] now.0[i] == listing[j].0 && removable(listing[j].0, listing[j].1, tool) by {
            if i < before.0.len() {
                assert(now.0[i] == before.0[i]);
                let j = choose|j: int|
                    0 <= j < pre.len() && before.0[i] == pre[j].0 && removable(pre[j].0, pre[j].1, tool);
                assert(pre[j] == listing[j]);
            } else {
                assert(now.0[i] == listing.last().0);
                assert(listing.last() == listing[listing.len() - 1]);
            }
        }
    }
}


/// The file of the cache entry of `tool` for `hash` is one that clearing
/// the cache may remove, whether all entries or those of `tool` are
/// cleared: it is a `json` file whose name starts with the tool's name and
/// `_`. (A name or hash holding `/` would place the file elsewhere.)
pub proof fn law_stored_entry_is_clearable(dir: Seq<char>, tool: Seq<char>, hash: Seq<char>)
    requires
        !tool.contains('/'),
        !hash.contains('/'),
    ensures
        cache_path(dir, tool, hash) == join_path(dir, tool + "_"@ + hash + ".json"@),
        removable(tool + "_"@ + hash + ".json"@, true, Some(tool)),
        removable(tool + "_"@ + hash + ".json"@, true, None),
{
    reveal_strlit(".json");
    reveal_strlit("json");
    reveal_strlit("_");
    let name = tool + "_"@ + hash + ".json"@;
    let k = name.len() - 5;
    assert(".json"@ =~= seq!['.', 'j', 's', 'o', 'n']);
    assert(name[k] == '.');
    assert(k > 0);
    assert(forall|j: int| k < j < name.len() ==> name[j] != '.');
    let c = choose|c: int|
        0 < c < name.len() && name[c] == '.' && forall|j: int| c < j < name.len() ==> name[j] != '.';
    assert(c == k);
    assert(name.skip(k + 1) =~= "json"@) by {
        assert("json"@ =~= seq!['j', 's', 'o', 'n']);
    }
    assert(crate::text::occurs_at(name, tool + "_"@, 0)) by {
        assert(name.subrange(0, (tool + "_"@).len() as int) =~= tool + "_"@);
    }
}

} // verus!
