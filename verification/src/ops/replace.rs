//! Template placeholders: `{{ NAME }}` markers and the values that
//! replace them.

use vstd::prelude::*;
use vstd::string::*;

use crate::text::{append_str, contains_seq, occurs_at, chars_of, is_unicode_whitespace, is_unicode_whitespace_exec, push_char, string_from_range};

verus! {

/// Whether `c` is a word character of Unicode regular expressions (the
/// class `\w`), as computed by `regex_syntax::is_word_character`.
pub uninterp spec fn is_word_char(c: char) -> bool;

/// Calls `regex_syntax::is_word_character`, which answers from the Unicode
/// tables of UTS#18 Annex C (Alphabetic, Mark, Decimal_Number,
/// Connector_Punctuation, Join_Control). The contract names the answer
/// and states it for ASCII, where those tables hold the letters, the
/// digits and `_` only; beyond ASCII the tables are not restated.
#[verifier::external_body]
fn word_char(c: char) -> (b: bool)
    ensures
        b == is_word_char(c),
        (c as u32) < 128 ==> (b <==> (c == '_' || ('0' <= c && c <= '9') || ('a' <= c && c <= 'z') || (
        'A' <= c && c <= 'Z'))),
{
    regex_syntax::is_word_character(c)
}

/// The map that a list of key/value pairs describes, a later pair
/// overriding an earlier one with the same key.
pub open spec fn map_of(s: Seq<(Seq<char>, Seq<char>)>) -> Map<Seq<char>, Seq<char>>
    decreases s.len(),
{
    if s.len() == 0 {
        Map::empty()
    } else {
        map_of(s.drop_last()).insert(s.last().0, s.last().1)
    }
}

/// No key occurs twice in `s`.
pub open spec fn keys_distinct(s: Seq<(Seq<char>, Seq<char>)>) -> bool {
    forall|i: int, j: int| 0 <= i < j < s.len() ==> #[trigger] s[i].0 != #[trigger] s[j].0
}

proof fn lemma_map_of_at(s: Seq<(Seq<char>, Seq<char>)>, i: int)
    requires
        keys_distinct(s),
        0 <= i < s.len(),
    ensures
        map_of(s).dom().contains(s[i].0),
        map_of(s)[s[i].0] == s[i].1,
    decreases s.len(),
{
    if i < s.len() - 1 {
        let t = s.drop_last();
        assert(keys_distinct(t));
        assert(t[i] == s[i]);
        lemma_map_of_at(t, i);
        assert(s[i].0 != s[s.len() - 1].0);
    }
}

proof fn lemma_map_of_absent(s: Seq<(Seq<char>, Seq<char>)>, k: Seq<char>)
    requires
        forall|i: int| 0 <= i < s.len() ==> #[trigger] s[i].0 != k,
    ensures
        !map_of(s).dom().contains(k),
    decreases s.len(),
{
    if s.len() > 0 {
        let t = s.drop_last();
        assert forall|i: int| 0 <= i < t.len() implies #[trigger] t[i].0 != k by {
            assert(t[i] == s[i]);
        }
        lemma_map_of_absent(t, k);
        assert(s[s.len() - 1].0 != k);
    }
}

pub(crate) proof fn lemma_map_of_update(s: Seq<(Seq<char>, Seq<char>)>, i: int, v: Seq<char>)
    requires
        keys_distinct(s),
        0 <= i < s.len(),
    ensures
        map_of(s.update(i, (s[i].0, v))) == map_of(s).insert(s[i].0, v),
        keys_distinct(s.update(i, (s[i].0, v))),
    decreases s.len(),
{
    let k = s[i].0;
    let u = s.update(i, (k, v));
    assert(u.len() == s.len());
    if i == s.len() - 1 {
        assert(u.drop_last() =~= s.drop_last());
        assert(map_of(u) =~= map_of(s).insert(k, v));
    } else {
        let t = s.drop_last();
        assert(keys_distinct(t));
        assert(t[i] == s[i]);
        lemma_map_of_update(t, i, v);
        assert(u.drop_last() =~= t.update(i, (k, v)));
        assert(u.last() == s.last());
        assert(s.last().0 != k);
        assert(map_of(u) =~= map_of(s).insert(k, v));
    }
    assert forall|a: int, b: int| 0 <= a < b < u.len() implies #[trigger] u[a].0 != #[trigger] u[b].0 by {
        assert(s[a].0 != s[b].0);
    }
}

pub(crate) proof fn lemma_map_of_push(s: Seq<(Seq<char>, Seq<char>)>, k: Seq<char>, v: Seq<char>)
    requires
        keys_distinct(s),
        forall|i: int| 0 <= i < s.len() ==> #[trigger] s[i].0 != k,
    ensures
        map_of(s.push((k, v))) == map_of(s).insert(k, v),
        keys_distinct(s.push((k, v))),
{
    let u = s.push((k, v));
    assert(u.drop_last() =~= s);
    assert forall|a: int, b: int| 0 <= a < b < u.len() implies #[trigger] u[a].0 != #[trigger] u[b].0 by {
        if b < s.len() {
            assert(u[a] == s[a] && u[b] == s[b]);
        } else {
            assert(u[a] == s[a]);
        }
    }
}

/// Named values for the placeholders of a template.
pub struct Replacements {
    entries: Vec<(String, String)>,
}

impl Replacements {
    /// The pairs held, as character sequences.
    pub closed spec fn pairs(&self) -> Seq<(Seq<char>, Seq<char>)> {
        Seq::new(self.entries@.len(), |i: int| (self.entries@[i].0@, self.entries@[i].1@))
    }

    #[verifier::type_invariant]
    closed spec fn distinct_keys(self) -> bool {
        keys_distinct(self.pairs())
    }

    /// An empty set of replacements.
    pub fn new() -> (r: Self)
        ensures
            r@ == Map::<Seq<char>, Seq<char>>::empty(),
    {
        let r = Replacements { entries: Vec::new() };
        assert(r.pairs() =~= Seq::<(Seq<char>, Seq<char>)>::empty());
        r
    }

    fn find(&self, key: &str) -> (r: Option<usize>)
        ensures
            match r {
                Some(i) => i < self.pairs().len() && self.pairs()[i as int].0 == key@,
                None => forall|i: int| 0 <= i < self.pairs().len() ==> #[trigger] self.pairs()[i].0 != key@,
            },
    {
        let k = key.to_owned();
        let mut i: usize = 0;
        while i < self.entries.len()
            invariant
                i <= self.entries@.len(),
                k@ == key@,
                forall|j: int| 0 <= j < i ==> #[trigger] self.pairs()[j].0 != key@,
            decreases self.entries@.len() - i,
        {
            if self.entries[i].0.eq(&k) {
                return Some(i);
            }
            i = i + 1;
        }
        None
    }

    /// Sets the value for `key`, replacing any value it had.
    pub fn add(&mut self, key: &str, val: &str)
        ensures
            final(self)@ == old(self)@.insert(key@, val@),
    {
        proof {
            use_type_invariant(&*self);
        }
        let found = self.find(key);
        let mut entries: Vec<(String, String)> = Vec::new();
        std::mem::swap(&mut entries, &mut self.entries);
        let ghost s = Seq::new(entries@.len(), |i: int| (entries@[i].0@, entries@[i].1@));
        assert(s =~= old(self).pairs());
        match found {
            Some(i) => {
                entries.set(i, (key.to_owned(), val.to_owned()));
                proof {
                    lemma_map_of_update(s, i as int, val@);
                }
                assert(Seq::new(entries@.len(), |j: int| (entries@[j].0@, entries@[j].1@))
                    =~= s.update(i as int, (key@, val@)));
                self.entries = entries;
            },
            None => {
                entries.push((key.to_owned(), val.to_owned()));
                proof {
                    lemma_map_of_push(s, key@, val@);
                }
                assert(Seq::new(entries@.len(), |j: int| (entries@[j].0@, entries@[j].1@))
                    =~= s.push((key@, val@)));
                self.entries = entries;
            },
        }
    }

    /// The value set for `key`, if any.
    pub fn get(&self, key: &str) -> (r: Option<&str>)
        ensures
            match r {
                Some(v) => self@.dom().contains(key@) && v@ == self@[key@],
                None => !self@.dom().contains(key@),
            },
    {
        proof {
            use_type_invariant(self);
        }
        match self.find(key) {
            Some(i) => {
                proof {
                    lemma_map_of_at(self.pairs(), i as int);
                }
                Some(self.entries[i].1.as_str())
            },
            None => {
                proof {
                    lemma_map_of_absent(self.pairs(), key@);
                }
                None
            },
        }
    }
}

impl View for Replacements {
    type V = Map<Seq<char>, Seq<char>>;

    closed spec fn view(&self) -> Map<Seq<char>, Seq<char>> {
        map_of(self.pairs())
    }
}


/// The value of `k` in the map of `s` is that of its last pair, and `k`
/// is absent when no pair has it.
proof fn lemma_map_of_last(s: Seq<(Seq<char>, Seq<char>)>, k: Seq<char>)
    ensures
        (forall|i: int| 0 <= i < s.len() ==> #[trigger] s[i].0 != k) ==> !map_of(s).dom().contains(k),
        forall|i: int|
            0 <= i < s.len() && #[trigger] s[i].0 == k && (forall|j: int| i < j < s.len() ==> s[j].0 != k)
                ==> map_of(s).dom().contains(k) && map_of(s)[k] == s[i].1,
    decreases s.len(),
{
    if s.len() > 0 {
        let t = s.drop_last();
        lemma_map_of_last(t, k);
        assert forall|i: int|
            0 <= i < s.len() && #[trigger] s[i].0 == k && (forall|j: int| i < j < s.len() ==> s[j].0 != k)
                implies map_of(s).dom().contains(k) && map_of(s)[k] == s[i].1 by {
            if i < s.len() - 1 {
                assert(s[s.len() - 1].0 != k);
                assert(t[i] == s[i]);
                assert forall|j: int| i < j < t.len() implies t[j].0 != k by {
                    assert(t[j] == s[j]);
                }
            }
        }
        if forall|i: int| 0 <= i < s.len() ==> #[trigger] s[i].0 != k {
            assert forall|i: int| 0 <= i < t.len() implies #[trigger] t[i].0 != k by {
                assert(t[i] == s[i]);
            }
            assert(s[s.len() - 1].0 != k);
        }
    }
}

/// Replacements made empty and then given the pairs `adds` one by one
/// (`views[i]` being the view after the first `i` additions, as `new` and
/// `add` state them) give for a key the value of the last pair added
/// with it, and nothing for a key never added.
pub proof fn law_get_returns_last_added(views: Seq<Map<Seq<char>, Seq<char>>>, adds: Seq<(Seq<char>, Seq<char>)>, k: Seq<char>)
    requires
        views.len() == adds.len() + 1,
        views[0] == Map::<Seq<char>, Seq<char>>::empty(),
        forall|i: int| 0 <= i < adds.len() ==> #[trigger] views[i + 1] == views[i].insert(adds[i].0, adds[i].1),
    ensures
        (forall|i: int| 0 <= i < adds.len() ==> #[trigger] adds[i].0 != k) ==> !views.last().dom().contains(k),
        forall|i: int|
            0 <= i < adds.len() && #[trigger] adds[i].0 == k && (forall|j: int| i < j < adds.len() ==> adds[j].0 != k)
                ==> views.last().dom().contains(k) && views.last()[k] == adds[i].1,
{
    assert forall|n: int| 0 <= n <= adds.len() implies #[trigger] views[n] == map_of(adds.take(n)) by {
        lemma_views_are_maps(views, adds, n);
    }
    assert(adds.take(adds.len() as int) =~= adds);
    assert(views.last() == views[adds.len() as int]);
    lemma_map_of_last(adds, k);
}

proof fn lemma_views_are_maps(views: Seq<Map<Seq<char>, Seq<char>>>, adds: Seq<(Seq<char>, Seq<char>)>, n: int)
    requires
        views.len() == adds.len() + 1,
        views[0] == Map::<Seq<char>, Seq<char>>::empty(),
        forall|i: int| 0 <= i < adds.len() ==> #[trigger] views[i + 1] == views[i].insert(adds[i].0, adds[i].1),
        0 <= n <= adds.len(),
    ensures
        views[n] == map_of(adds.take(n)),
    decreases n,
{
    if n == 0 {
        assert(adds.take(0) =~= Seq::<(Seq<char>, Seq<char>)>::empty());
    } else {
        lemma_views_are_maps(views, adds, n - 1);
        assert(adds.take(n).drop_last() =~= adds.take(n - 1));
        assert(adds.take(n).last() == adds[n - 1]);
        assert(views[(n - 1) + 1] == views[n - 1].insert(adds[n - 1].0, adds[n - 1].1));
    }
}

/// The index just past the run of white space of `s` that starts at `j`.
pub open spec fn ws_end(s: Seq<char>, j: int) -> int
    decreases s.len() - j,
{
    if 0 <= j < s.len() && is_unicode_whitespace(s[j]) {
        ws_end(s, j + 1)
    } else {
        j
    }
}

/// The index just past the run of word characters of `s` (as flagged in
/// `w`) that starts at `j`.
pub open spec fn word_end(s: Seq<char>, w: Seq<bool>, j: int) -> int
    decreases s.len() - j,
{
    if 0 <= j < s.len() && j < w.len() && w[j] {
        word_end(s, w, j + 1)
    } else {
        j
    }
}

proof fn lemma_ws_end_bounds(s: Seq<char>, j: int)
    requires
        0 <= j <= s.len(),
    ensures
        j <= ws_end(s, j) <= s.len(),
    decreases s.len() - j,
{
    if j < s.len() && is_unicode_whitespace(s[j]) {
        lemma_ws_end_bounds(s, j + 1);
    }
}

proof fn lemma_word_end_bounds(s: Seq<char>, w: Seq<bool>, j: int)
    requires
        0 <= j <= s.len(),
    ensures
        j <= word_end(s, w, j) <= s.len(),
    decreases s.len() - j,
{
    if j < s.len() && j < w.len() && w[j] {
        lemma_word_end_bounds(s, w, j + 1);
    }
}

/// The placeholder `{{ NAME }}` that starts at `i` in `s`, if there is one:
/// two opening braces, optional white space, a name of one or more word
/// characters, optional white space and two closing braces (the pattern
/// `\{\{\s*(\w+)\s*\}\}`). Its result gives where the name starts, where it
/// ends, and where the placeholder ends.
pub open spec fn placeholder_at(s: Seq<char>, w: Seq<bool>, i: int) -> Option<(int, int, int)> {
    if 0 <= i && i + 1 < s.len() && s[i] == '{' && s[i + 1] == '{' {
        let a = ws_end(s, i + 2);
        let b = word_end(s, w, a);
        let c = ws_end(s, b);
        if a < b && 0 <= c && c + 1 < s.len() && s[c] == '}' && s[c + 1] == '}' {
            Some((a, b, c + 2))
        } else {
            None
        }
    } else {
        None
    }
}

pub proof fn lemma_placeholder_bounds(s: Seq<char>, w: Seq<bool>, i: int)
    requires
        0 <= i < s.len(),
    ensures
        placeholder_at(s, w, i) matches Some((a, b, e)) ==> i + 2 <= a < b <= e - 2 && e <= s.len(),
{
    if i + 1 < s.len() && s[i] == '{' && s[i + 1] == '{' {
        let a = ws_end(s, i + 2);
        lemma_ws_end_bounds(s, i + 2);
        lemma_word_end_bounds(s, w, a);
        lemma_ws_end_bounds(s, word_end(s, w, a));
    }
}

/// The text that stands for the placeholder `name`: its value, or
/// `{{MISSING}}` when it has none.
pub open spec fn value_for(m: Map<Seq<char>, Seq<char>>, name: Seq<char>) -> Seq<char> {
    if m.dom().contains(name) {
        m[name]
    } else {
        "{{MISSING}}"@
    }
}

/// `s[i..]` with each placeholder, found from left to right, replaced by
/// its value.
pub open spec fn render_from(s: Seq<char>, w: Seq<bool>, m: Map<Seq<char>, Seq<char>>, i: int) -> Seq<char>
    decreases s.len() - i,
{
    if i < 0 || i >= s.len() {
        Seq::empty()
    } else {
        proof {
            lemma_placeholder_bounds(s, w, i);
        }
        match placeholder_at(s, w, i) {
            Some((a, b, e)) => value_for(m, s.subrange(a, b)) + render_from(s, w, m, e),
            None => seq![s[i]] + render_from(s, w, m, i + 1),
        }
    }
}

/// The word-character flags of the characters of `s`.
pub open spec fn word_flags(s: Seq<char>) -> Seq<bool> {
    Seq::new(s.len(), |i: int| is_word_char(s[i]))
}

/// `s` with each placeholder replaced by its value from `m`.
pub open spec fn rendered(s: Seq<char>, m: Map<Seq<char>, Seq<char>>) -> Seq<char> {
    render_from(s, word_flags(s), m, 0)
}

fn ws_end_exec(v: &Vec<char>, j: usize) -> (r: usize)
    requires
        j <= v@.len(),
    ensures
        r == ws_end(v@, j as int),
        j <= r <= v@.len(),
{
    let mut k = j;
    while k < v.len() && is_unicode_whitespace_exec(v[k])
        invariant
            j <= k <= v@.len(),
            ws_end(v@, k as int) == ws_end(v@, j as int),
        decreases v@.len() - k,
    {
        k = k + 1;
    }
    k
}

fn word_end_exec(v: &Vec<char>, w: &Vec<bool>, j: usize) -> (r: usize)
    requires
        j <= v@.len(),
        w@.len() == v@.len(),
    ensures
        r == word_end(v@, w@, j as int),
        j <= r <= v@.len(),
{
    let mut k = j;
    while k < v.len() && w[k]
        invariant
            j <= k <= v@.len(),
            w@.len() == v@.len(),
            word_end(v@, w@, k as int) == word_end(v@, w@, j as int),
        decreases v@.len() - k,
    {
        k = k + 1;
    }
    k
}

fn placeholder_at_exec(v: &Vec<char>, w: &Vec<bool>, i: usize) -> (r: Option<(usize, usize, usize)>)
    requires
        i < v@.len(),
        w@.len() == v@.len(),
    ensures
        match r {
            Some((a, b, e)) => placeholder_at(v@, w@, i as int) == Some((a as int, b as int, e as int)),
            None => placeholder_at(v@, w@, i as int) is None,
        },
{
    if v.len() - i >= 2 && v[i] == '{' && v[i + 1] == '{' {
        let a = ws_end_exec(v, i + 2);
        let b = word_end_exec(v, w, a);
        let c = ws_end_exec(v, b);
        if a < b && c < v.len() && v.len() - c >= 2 && v[c] == '}' && v[c + 1] == '}' {
            Some((a, b, c + 2))
        } else {
            None
        }
    } else {
        None
    }
}

/// Replaces each placeholder of `template`, found from left to right, by
/// its value in `rep`, or by `{{MISSING}}` where `rep` has none; `flags`
/// tells which characters of `template` are word characters.
pub fn replace_with_flags(template: &Vec<char>, flags: &Vec<bool>, rep: &Replacements) -> (r: String)
    requires
        flags@.len() == template@.len(),
    ensures
        r@ == render_from(template@, flags@, rep@, 0),
{
    let n = template.len();
    let mut out = String::new();
    let mut i: usize = 0;
    while i < n
        invariant
            n == template@.len(),
            flags@.len() == n,
            i <= n,
            out@ + render_from(template@, flags@, rep@, i as int) == render_from(
                template@,
                flags@,
                rep@,
                0,
            ),
        decreases n - i,
    {
        let ghost before = out@;
        proof {
            lemma_placeholder_bounds(template@, flags@, i as int);
        }
        match placeholder_at_exec(template, flags, i) {
            Some((a, b, e)) => {
                let name = string_from_range(template, a, b);
                match rep.get(name.as_str()) {
                    Some(v) => append_str(&mut out, v),
                    None => {
                        let missing = "{{MISSING}}";
                        append_str(&mut out, missing);
                    },
                }
                assert(out@ == before + value_for(rep@, template@.subrange(a as int, b as int)));
                assert(out@ + render_from(template@, flags@, rep@, e as int) =~= before
                    + render_from(template@, flags@, rep@, i as int));
                i = e;
            },
            None => {
                push_char(&mut out, template[i]);
                assert(out@ + render_from(template@, flags@, rep@, i + 1) =~= before
                    + render_from(template@, flags@, rep@, i as int));
                i = i + 1;
            },
        }
    }
    assert(render_from(template@, flags@, rep@, n as int) =~= Seq::<char>::empty());
    assert(out@ =~= render_from(template@, flags@, rep@, 0));
    out
}

/// The word-character flags of the characters of `v`.
fn word_flags_exec(v: &Vec<char>) -> (w: Vec<bool>)
    ensures
        w@ == word_flags(v@),
{
    let mut w: Vec<bool> = Vec::new();
    let mut i: usize = 0;
    while i < v.len()
        invariant
            i <= v@.len(),
            w@ == word_flags(v@).subrange(0, i as int),
        decreases v@.len() - i,
    {
        w.push(word_char(v[i]));
        i = i + 1;
        assert(w@ =~= word_flags(v@).subrange(0, i as int));
    }
    assert(w@ =~= word_flags(v@));
    w
}

/// Replaces each `{{ NAME }}` placeholder of `template` by the value of
/// `NAME` in `rep`, or by `{{MISSING}}` where `rep` has none. An empty
/// template stays empty.
pub fn replace_placeholders(template: &str, rep: &Replacements) -> (r: String)
    ensures
        r@ == rendered(template@, rep@),
        template@.len() == 0 ==> r@.len() == 0,
{
    let v = chars_of(template);
    let w = word_flags_exec(&v);
    replace_with_flags(&v, &w, rep)
}


proof fn lemma_render_plain(s: Seq<char>, w: Seq<bool>, m: Map<Seq<char>, Seq<char>>, i: int)
    requires
        0 <= i <= s.len(),
        forall|j: int| i <= j && j + 1 < s.len() ==> !(s[j] == '{' && #[trigger] s[j + 1] == '{'),
    ensures
        render_from(s, w, m, i) == s.skip(i),
    decreases s.len() - i,
{
    if i < s.len() {
        if i + 1 < s.len() {
            assert(!(s[i] == '{' && s[i + 1] == '{'));
        }
        lemma_render_plain(s, w, m, i + 1);
        assert(s.skip(i) =~= seq![s[i]] + s.skip(i + 1));
    } else {
        assert(s.skip(i) =~= Seq::<char>::empty());
    }
}

/// Text in which no `{{` occurs comes out of placeholder replacement
/// unchanged, whatever the replacements.
pub proof fn law_text_without_braces_unchanged(s: Seq<char>, m: Map<Seq<char>, Seq<char>>)
    requires
        !contains_seq(s, "{{"@),
    ensures
        rendered(s, m) == s,
{
    reveal_strlit("{{");
    assert forall|j: int| 0 <= j && j + 1 < s.len() implies !(s[j] == '{' && #[trigger] s[j + 1] == '{') by {
        if s[j] == '{' && s[j + 1] == '{' {
            assert(s.subrange(j, j + 2) =~= "{{"@);
            assert(occurs_at(s, "{{"@, j));
        }
    }
    lemma_render_plain(s, word_flags(s), m, 0);
    assert(s.skip(0) =~= s);
}

/// A template that is one placeholder, `{{` + `name` + `}}` with `name` a
/// run of word characters and no white space, becomes the value of
/// `name`, or `{{MISSING}}` when it has none.
pub proof fn law_lone_placeholder(name: Seq<char>, flags: Seq<bool>, m: Map<Seq<char>, Seq<char>>)
    requires
        name.len() > 0,
        forall|j: int| 0 <= j < name.len() ==> !is_unicode_whitespace(#[trigger] name[j]),
        flags.len() == name.len() + 4,
        forall|j: int| 2 <= j < name.len() + 2 ==> #[trigger] flags[j],
        !flags[name.len() + 2int],
    ensures
        render_from("{{"@ + name + "}}"@, flags, m, 0) == value_for(m, name),
{
    reveal_strlit("{{");
    reveal_strlit("}}");
    let s = "{{"@ + name + "}}"@;
    let n = name.len() as int;
    assert(s[0] == '{' && s[1] == '{');
    assert(!is_unicode_whitespace(s[2]));
    assert(ws_end(s, 2) == 2);
    assert forall|j: int| 2 <= j <= n + 2 implies word_end(s, flags, j) == n + 2 by {
        lemma_word_end_run(s, flags, j, n + 2);
    }
    assert(s[n + 2] == '}');
    assert(ws_end(s, n + 2) == n + 2);
    assert(s[n + 3] == '}');
    assert(s.subrange(2, n + 2) =~= name);
    assert(placeholder_at(s, flags, 0) == Some((2int, n + 2, n + 4)));
    assert(render_from(s, flags, m, n + 4) =~= Seq::<char>::empty());
    assert(render_from(s, flags, m, 0) =~= value_for(m, name));
}

proof fn lemma_word_end_run(s: Seq<char>, w: Seq<bool>, j: int, stop: int)
    requires
        0 <= j <= stop < s.len(),
        stop < w.len(),
        forall|k: int| j <= k < stop ==> #[trigger] w[k],
        !w[stop],
    ensures
        word_end(s, w, j) == stop,
    decreases stop - j,
{
    if j < stop {
        lemma_word_end_run(s, w, j + 1, stop);
    }
}

} // verus!
