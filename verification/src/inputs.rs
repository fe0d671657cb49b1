//! The input files of a tool: where their patterns point, and the digest
//! that tells whether they changed.

use vstd::prelude::*;
use vstd::string::*;
use vstd::utf8::encode_utf8;

use crate::error::Error;
use crate::fs_query::{glob_matches, path_is_file};
use crate::paths::{is_absolute, join, join_path};
use crate::text::{append_str, decimal, decimal_string, texts};
use crate::Result;

verus! {

/// The largest file, in bytes, whose content goes into a digest.
pub const MAX_FILE_SIZE: usize = 10485760;

/// The SHA-256 digest of `data`.
pub uninterp spec fn sha256_digest(data: Seq<u8>) -> Seq<u8>;

/// Calls `sha2::Sha256::digest` (through `sha2::Digest`) on `data`. Its
/// result is named, not restated; it is the 32 bytes of a SHA-256 digest.
#[verifier::external_body]
fn sha256(data: &[u8]) -> (r: Vec<u8>)
    ensures
        r@ == sha256_digest(data@),
        r@.len() == 32,
{
    <sha2::Sha256 as sha2::Digest>::digest(data).to_vec()
}

/// Where the patterns of a tool's inputs are resolved from, and the
/// patterns.
pub struct InputTracker {
    base_path: String,
    patterns: Vec<String>,
}

impl InputTracker {
    /// The base path.
    pub closed spec fn base(&self) -> Seq<char> {
        self.base_path@
    }

    /// The patterns.
    pub closed spec fn pattern_list(&self) -> Seq<String> {
        self.patterns@
    }

    /// A tracker of the inputs matching `patterns` under `base_path`.
    pub fn new(base_path: &str, patterns: Vec<String>) -> (r: Self)
        ensures
            r.base() == base_path@,
            r.pattern_list() == patterns@,
    {
        InputTracker { base_path: base_path.to_owned(), patterns }
    }

    /// The patterns.
    pub fn patterns(&self) -> (r: &Vec<String>)
        ensures
            r@ == self.pattern_list(),
    {
        &self.patterns
    }

    /// The pattern that `pattern` stands for: itself when absolute,
    /// otherwise joined onto the base path.
    pub fn absolute_pattern(&self, pattern: &str) -> (r: String)
        ensures
            r@ == (if is_absolute(pattern@) {
                pattern@
            } else {
                join_path(self.base(), pattern@)
            }),
    {
        let v = crate::text::chars_of(pattern);
        if v.len() > 0 && v[0] == '/' {
            pattern.to_owned()
        } else {
            join(self.base_path.as_str(), pattern)
        }
    }
}

/// The two lowercase hexadecimal digits of `b`.
pub open spec fn hex_digit(d: u8) -> char {
    if d < 10 {
        (('0' as u8) + d) as char
    } else {
        (('a' as u8) + (d - 10)) as char
    }
}

/// The lowercase hexadecimal text of `bytes`, two digits per byte.
pub open spec fn hex(bytes: Seq<u8>) -> Seq<char>
    decreases bytes.len(),
{
    if bytes.len() == 0 {
        Seq::empty()
    } else {
        hex(bytes.drop_last()) + seq![hex_digit(bytes.last() / 16), hex_digit(bytes.last() % 16)]
    }
}

fn hex_digit_exec(d: u8) -> (c: char)
    requires
        d < 16,
    ensures
        c == hex_digit(d),
{
    let digits = "0123456789abcdef";
    proof {
        reveal_strlit("0123456789abcdef");
    }
    let c = digits.get_char(d as usize);
    assert(c == hex_digit(d)) by {
        assert(d == 0 || d == 1 || d == 2 || d == 3 || d == 4 || d == 5 || d == 6 || d == 7 || d == 8
            || d == 9 || d == 10 || d == 11 || d == 12 || d == 13 || d == 14 || d == 15);
    }
    c
}

/// The lowercase hexadecimal text of `bytes`.
pub fn hex_string(bytes: &Vec<u8>) -> (r: String)
    ensures
        r@ == hex(bytes@),
{
    let mut r = String::new();
    let mut i: usize = 0;
    while i < bytes.len()
        invariant
            i <= bytes@.len(),
            r@ == hex(bytes@.subrange(0, i as int)),
        decreases bytes@.len() - i,
    {
        let b = bytes[i];
        crate::text::push_char(&mut r, hex_digit_exec(b / 16));
        crate::text::push_char(&mut r, hex_digit_exec(b % 16));
        assert(bytes@.subrange(0, i + 1).drop_last() =~= bytes@.subrange(0, i as int));
        i = i + 1;
    }
    assert(bytes@.subrange(0, bytes@.len() as int) =~= bytes@);
    r
}

/// The bytes a digest is taken of: for each file, its path, `:`, its
/// content and a line break.
pub open spec fn digest_input(files: Seq<(String, Vec<u8>)>) -> Seq<u8>
    decreases files.len(),
{
    if files.len() == 0 {
        Seq::empty()
    } else {
        digest_input(files.drop_last()) + encode_utf8(files.last().0@) + seq![58u8]
            + files.last().1@ + seq![10u8]
    }
}

/// The message for a file too large to go into a digest.
pub open spec fn too_large_message(path: Seq<char>, size: nat) -> Seq<char> {
    "File too large to hash: "@ + path + " ("@ + decimal(size) + " bytes, limit: 10485760 bytes)"@
}

/// The digest of the input files, given as (path, content) in the order
/// they are taken: the hexadecimal SHA-256 of `digest_input(files)`;
/// refused when a file is larger than `MAX_FILE_SIZE`, naming the first.
pub fn input_digest(files: &Vec<(String, Vec<u8>)>) -> (r: Result<String>)
    ensures
        (forall|i: int| 0 <= i < files@.len() ==> #[trigger] files@[i].1@.len() <= MAX_FILE_SIZE)
            ==> (r matches Ok(h) && h@ == hex(sha256_digest(digest_input(files@)))),
        forall|i: int|
            0 <= i < files@.len() && #[trigger] files@[i].1@.len() > MAX_FILE_SIZE && (forall|j: int|
                0 <= j < i ==> files@[j].1@.len() <= MAX_FILE_SIZE) ==> (r matches Err(
                Error::Input { message },
            ) && message@ == too_large_message(files@[i].0@, files@[i].1@.len())),
{
    let mut data: Vec<u8> = Vec::new();
    let mut i: usize = 0;
    while i < files.len()
        invariant
            i <= files@.len(),
            data@ == digest_input(files@.subrange(0, i as int)),
            forall|j: int| 0 <= j < i ==> #[trigger] files@[j].1@.len() <= MAX_FILE_SIZE,
        decreases files@.len() - i,
    {
        let (path, content) = (&files[i].0, &files[i].1);
        if content.len() > MAX_FILE_SIZE {
            let mut m = String::from_str("File too large to hash: ");
            append_str(&mut m, path.as_str());
            append_str(&mut m, " (");
            let n = decimal_string(content.len() as u64);
            append_str(&mut m, n.as_str());
            append_str(&mut m, " bytes, limit: 10485760 bytes)");
            return Err(Error::Input { message: m });
        }
        let ghost before = data@;
        let pb = path.as_str().as_bytes();
        let mut k: usize = 0;
        while k < pb.len()
            invariant
                k <= pb@.len(),
                data@ == before + pb@.subrange(0, k as int),
            decreases pb@.len() - k,
        {
            data.push(pb[k]);
            k = k + 1;
            assert(data@ =~= before + pb@.subrange(0, k as int));
        }
        assert(pb@.subrange(0, pb@.len() as int) =~= pb@);
        data.push(58u8);
        let ghost mid = data@;
        let mut k: usize = 0;
        while k < content.len()
            invariant
                k <= content@.len(),
                data@ == mid + content@.subrange(0, k as int),
            decreases content@.len() - k,
        {
            data.push(content[k]);
            k = k + 1;
            assert(data@ =~= mid + content@.subrange(0, k as int));
        }
        assert(content@.subrange(0, content@.len() as int) =~= content@);
        data.push(10u8);
        proof {
            let s = files@.subrange(0, i + 1);
            assert(s.drop_last() =~= files@.subrange(0, i as int));
            assert(s.last() == files@[i as int]);
            assert(pb@ == encode_utf8(path@));
            assert(data@ =~= digest_input(files@.subrange(0, i as int)) + encode_utf8(path@)
                + seq![58u8] + content@ + seq![10u8]);
        }
        i = i + 1;
    }
    assert(files@.subrange(0, files@.len() as int) =~= files@);
    let digest = sha256(data.as_slice());
    Ok(hex_string(&digest))
}


/// The most input files a tracker collects.
pub const MAX_FILES: usize = 10000;

/// A match of a glob pattern as the walk met it: its path, or the error met
/// reaching it; and whether the path is a file.
pub type GlobMatch = (core::result::Result<String, String>, bool);

/// What globbing a pattern gave: its error, or its matches in order.
pub type Globbed = core::result::Result<Vec<GlobMatch>, String>;

/// A result of texts as plain values.
pub open spec fn text_result(r: core::result::Result<String, String>) -> core::result::Result<Seq<char>, Seq<char>> {
    match r {
        Ok(s) => Ok(s@),
        Err(e) => Err(e@),
    }
}

/// A glob match as plain values.
pub open spec fn match_view(m: GlobMatch) -> (core::result::Result<Seq<char>, Seq<char>>, bool) {
    (text_result(m.0), m.1)
}

/// What globbing a pattern gave, as plain values.
pub open spec fn globbed_view(g: Globbed) -> core::result::Result<Seq<(core::result::Result<Seq<char>, Seq<char>>, bool)>, Seq<char>> {
    match g {
        Ok(ms) => Ok(ms@.map_values(|m: GlobMatch| match_view(m))),
        Err(e) => Err(e@),
    }
}

/// One match taken into the files gathered so far: refused once the limit
/// is reached, refused when the walk failed there, kept when it is a file
/// not gathered yet.
pub open spec fn take_match(files: Seq<Seq<char>>, m: (core::result::Result<Seq<char>, Seq<char>>, bool)) -> core::result::Result<Seq<Seq<char>>, Seq<char>> {
    if files.len() >= MAX_FILES {
        Err("Too many input files (limit: 10000)"@)
    } else {
        match m.0 {
            Ok(p) => if m.1 && !files.contains(p) {
                Ok(files.push(p))
            } else {
                Ok(files)
            },
            Err(e) => Err("Failed to process glob entry: "@ + e),
        }
    }
}

/// The matches `ms` taken in order into `files`; the first refusal ends it.
pub open spec fn take_matches(files: Seq<Seq<char>>, ms: Seq<(core::result::Result<Seq<char>, Seq<char>>, bool)>) -> core::result::Result<Seq<Seq<char>>, Seq<char>>
    decreases ms.len(),
{
    if ms.len() == 0 {
        Ok(files)
    } else {
        match take_matches(files, ms.drop_last()) {
            Err(e) => Err(e),
            Ok(f) => take_match(f, ms.last()),
        }
    }
}

/// The input files that the first `n` patterns give, pattern `i` having
/// globbed to `globbed[i]`: an invalid pattern is refused by its text.
pub open spec fn gather_inputs(
    patterns: Seq<Seq<char>>,
    globbed: Seq<core::result::Result<Seq<(core::result::Result<Seq<char>, Seq<char>>, bool)>, Seq<char>>>,
    n: nat,
) -> core::result::Result<Seq<Seq<char>>, Seq<char>>
    decreases n,
{
    if n == 0 {
        Ok(Seq::empty())
    } else {
        let m = (n - 1) as nat;
        match gather_inputs(patterns, globbed, m) {
            Err(e) => Err(e),
            Ok(f) => match globbed[m as int] {
                Err(e) => Err("Invalid glob pattern '"@ + patterns[m as int] + "': "@ + e),
                Ok(ms) => take_matches(f, ms),
            },
        }
    }
}

/// Once taking matches has failed, the rest of them changes nothing.
proof fn lemma_take_matches_failed(
    files: Seq<Seq<char>>,
    ms: Seq<(core::result::Result<Seq<char>, Seq<char>>, bool)>,
    k: int,
)
    requires
        0 <= k <= ms.len(),
        take_matches(files, ms.take(k)) is Err,
    ensures
        take_matches(files, ms) == take_matches(files, ms.take(k)),
    decreases ms.len() - k,
{
    if k == ms.len() {
        assert(ms.take(k) =~= ms);
    } else {
        assert(ms.take(k + 1).drop_last() =~= ms.take(k));
        lemma_take_matches_failed(files, ms, k + 1);
    }
}

/// Once gathering has failed, the later patterns change nothing.
proof fn lemma_gather_failed(
    patterns: Seq<Seq<char>>,
    globbed: Seq<core::result::Result<Seq<(core::result::Result<Seq<char>, Seq<char>>, bool)>, Seq<char>>>,
    m: nat,
    n: nat,
)
    requires
        m <= n,
        gather_inputs(patterns, globbed, m) is Err,
    ensures
        gather_inputs(patterns, globbed, n) == gather_inputs(patterns, globbed, m),
    decreases n - m,
{
    if n > m {
        lemma_gather_failed(patterns, globbed, m, (n - 1) as nat);
    }
}

/// `r` is what `gather_inputs` gives, an error as `Error::Input`.
pub open spec fn inputs_agree(r: Result<Vec<String>>, outcome: core::result::Result<Seq<Seq<char>>, Seq<char>>) -> bool {
    match outcome {
        Ok(f) => r matches Ok(v) && v@.map_values(|s: String| s@) == f,
        Err(m) => r matches Err(Error::Input { message }) && message@ == m,
    }
}

/// Whether `files` holds `p`.
fn holds(files: &Vec<String>, p: &String) -> (b: bool)
    ensures
        b == files@.map_values(|s: String| s@).contains(p@),
{
    let ghost fv = files@.map_values(|s: String| s@);
    let mut i: usize = 0;
    while i < files.len()
        invariant
            i <= files@.len(),
            fv == files@.map_values(|s: String| s@),
            forall|j: int| 0 <= j < i ==> fv[j] != p@,
        decreases files@.len() - i,
    {
        if files[i] == *p {
            assert(fv[i as int] == p@);
            return true;
        }
        i = i + 1;
    }
    false
}

/// Gathers the input files from what globbing each pattern gave
/// (`globbed[i]` for `patterns[i]`; see `gather_inputs`): the files in the
/// order met, each once, at most `MAX_FILES`.
pub fn gather_input_files(patterns: &Vec<String>, globbed: &Vec<Globbed>) -> (r: Result<Vec<String>>)
    requires
        globbed@.len() == patterns@.len(),
    ensures
        inputs_agree(
            r,
            gather_inputs(
                patterns@.map_values(|s: String| s@),
                globbed@.map_values(|g: Globbed| globbed_view(g)),
                patterns@.len() as nat,
            ),
        ),
{
    let ghost pv = patterns@.map_values(|s: String| s@);
    let ghost gv = globbed@.map_values(|g: Globbed| globbed_view(g));
    let mut files: Vec<String> = Vec::new();
    assert(files@.map_values(|s: String| s@) =~= Seq::<Seq<char>>::empty());
    let mut i: usize = 0;
    while i < patterns.len()
        invariant
            i <= patterns@.len(),
            globbed@.len() == patterns@.len(),
            pv == patterns@.map_values(|s: String| s@),
            gv == globbed@.map_values(|g: Globbed| globbed_view(g)),
            gather_inputs(pv, gv, i as nat) == Ok::<Seq<Seq<char>>, Seq<char>>(
                files@.map_values(|s: String| s@),
            ),
        decreases patterns@.len() - i,
    {
        assert(gv[i as int] == globbed_view(globbed@[i as int]));
        match &globbed[i] {
            Err(e) => {
                let mut m = String::from_str("Invalid glob pattern '");
                m.append(patterns[i].as_str());
                m.append("': ");
                m.append(e.as_str());
                proof {
                    assert(pv[i as int] == patterns@[i as int]@);
                    lemma_gather_failed(pv, gv, (i + 1) as nat, patterns@.len() as nat);
                }
                return Err(Error::Input { message: m });
            },
            Ok(ms) => {
                let ghost mv = ms@.map_values(|m: GlobMatch| match_view(m));
                let ghost start = files@.map_values(|s: String| s@);
                assert(gv[i as int] == Ok::<Seq<(core::result::Result<Seq<char>, Seq<char>>, bool)>, Seq<char>>(mv));
                let mut k: usize = 0;
                assert(mv.take(0) =~= Seq::<(core::result::Result<Seq<char>, Seq<char>>, bool)>::empty());
                while k < ms.len()
                    invariant
                        k <= ms@.len(),
                        i < patterns@.len(),
                        globbed@.len() == patterns@.len(),
                        pv == patterns@.map_values(|s: String| s@),
                        gv == globbed@.map_values(|g: Globbed| globbed_view(g)),
                        gather_inputs(pv, gv, i as nat) == Ok::<Seq<Seq<char>>, Seq<char>>(start),
                        gv[i as int] == Ok::<Seq<(core::result::Result<Seq<char>, Seq<char>>, bool)>, Seq<char>>(mv),
                        mv == ms@.map_values(|m: GlobMatch| match_view(m)),
                        take_matches(start, mv.take(k as int)) == Ok::<Seq<Seq<char>>, Seq<char>>(
                            files@.map_values(|s: String| s@),
                        ),
                    decreases ms@.len() - k,
                {
                    assert(mv.take(k + 1).drop_last() =~= mv.take(k as int));
                    assert(mv.take(k + 1).last() == match_view(ms@[k as int]));
                    if files.len() >= MAX_FILES {
                        proof {
                            lemma_take_matches_failed(start, mv, k + 1);
                            lemma_gather_failed(pv, gv, (i + 1) as nat, patterns@.len() as nat);
                        }
                        return Err(Error::Input { message: String::from_str("Too many input files (limit: 10000)") });
                    }
                    match &ms[k].0 {
                        Ok(p) => {
                            if ms[k].1 && !holds(&files, p) {
                                let ghost before = files@.map_values(|s: String| s@);
                                files.push(p.clone());
                                assert(files@.map_values(|s: String| s@) =~= before.push(p@));
                            }
                        },
                        Err(e) => {
                            let mut m = String::from_str("Failed to process glob entry: ");
                            m.append(e.as_str());
                            proof {
                                lemma_take_matches_failed(start, mv, k + 1);
                                lemma_gather_failed(pv, gv, (i + 1) as nat, patterns@.len() as nat);
                            }
                            return Err(Error::Input { message: m });
                        },
                    }
                    k = k + 1;
                }
                assert(mv.take(ms@.len() as int) =~= mv);
            },
        }
        i = i + 1;
    }
    Ok(files)
}

impl InputTracker {
    /// All input files matching the patterns: each pattern, made absolute
    /// (see `absolute_pattern`), is globbed, and the matches are gathered
    /// as `gather_input_files` says. Whatever the disk holds, the result is
    /// what `gather_inputs` gives for some outcome of globbing each pattern.
    pub fn get_input_files(&self) -> (r: Result<Vec<String>>)
        ensures
            exists|g: Seq<core::result::Result<Seq<(core::result::Result<Seq<char>, Seq<char>>, bool)>, Seq<char>>>|
                g.len() == self.pattern_list().len() && #[trigger] inputs_agree(
                    r,
                    gather_inputs(texts(self.pattern_list()), g, self.pattern_list().len() as nat),
                ),
    {
        let mut globbed: Vec<Globbed> = Vec::new();
        let mut i: usize = 0;
        while i < self.patterns.len()
            invariant
                i <= self.patterns@.len(),
                globbed@.len() == i,
            decreases self.patterns@.len() - i,
        {
            let abs = self.absolute_pattern(self.patterns[i].as_str());
            let g: Globbed = match glob_matches(abs.as_str()) {
                Err(e) => Err(e),
                Ok(found) => {
                    let mut rest = found;
                    let mut ms: Vec<GlobMatch> = Vec::new();
                    while rest.len() > 0
                        decreases rest@.len(),
                    {
                        let f = match rest.remove(0) {
                            Ok(p) => Ok(p),
                            Err((shown, _)) => Err(shown),
                        };
                        let is_file = match &f {
                            Ok(p) => path_is_file(p.as_str()),
                            Err(_) => false,
                        };
                        ms.push((f, is_file));
                    }
                    Ok(ms)
                },
            };
            globbed.push(g);
            i = i + 1;
        }
        let r = gather_input_files(&self.patterns, &globbed);
        proof {
            let gv = globbed@.map_values(|g: Globbed| globbed_view(g));
            assert(texts(self.pattern_list()) == self.patterns@.map_values(|s: String| s@));
            assert(inputs_agree(r, gather_inputs(texts(self.pattern_list()), gv, self.pattern_list().len() as nat)));
        }
        r
    }
}


/// Taking matches keeps the files distinct and within `MAX_FILES`.
proof fn lemma_take_matches_distinct(
    files: Seq<Seq<char>>,
    ms: Seq<(core::result::Result<Seq<char>, Seq<char>>, bool)>,
)
    requires
        files.no_duplicates(),
        files.len() <= MAX_FILES,
    ensures
        take_matches(files, ms) matches Ok(f) ==> f.no_duplicates() && f.len() <= MAX_FILES,
    decreases ms.len(),
{
    if ms.len() > 0 {
        lemma_take_matches_distinct(files, ms.drop_last());
        match take_matches(files, ms.drop_last()) {
            Ok(f) => {
                if f.len() < MAX_FILES {
                    if let Ok(p) = ms.last().0 {
                        if ms.last().1 && !f.contains(p) {
                            let g = f.push(p);
                            assert forall|a: int, b: int| 0 <= a < g.len() && 0 <= b < g.len() && a != b
                                implies g[a] != g[b] by {
                                if a < f.len() && b < f.len() {
                                } else if a == f.len() as int {
                                    assert(g[b] == f[b]);
                                } else {
                                    assert(g[a] == f[a]);
                                }
                            }
                        }
                    }
                }
            },
            Err(_) => {},
        }
    }
}

/// The input files gathered are distinct and at most `MAX_FILES`, whatever
/// the patterns and whatever globbing them gave.
pub proof fn law_inputs_distinct_and_bounded(
    patterns: Seq<Seq<char>>,
    globbed: Seq<core::result::Result<Seq<(core::result::Result<Seq<char>, Seq<char>>, bool)>, Seq<char>>>,
    n: nat,
)
    requires
        n <= globbed.len(),
    ensures
        gather_inputs(patterns, globbed, n) matches Ok(f) ==> f.no_duplicates() && f.len() <= MAX_FILES,
    decreases n,
{
    if n > 0 {
        let m = (n - 1) as nat;
        law_inputs_distinct_and_bounded(patterns, globbed, m);
        if let Ok(f) = gather_inputs(patterns, globbed, m) {
            if let Ok(ms) = globbed[m as int] {
                lemma_take_matches_distinct(f, ms);
            }
        }
    }
}

} // verus!
