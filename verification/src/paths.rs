//! Paths as text, with the rules of `std::path` on Unix: `/` separates
//! components, empty and `.` components are dropped, `..` names the parent.

use vstd::prelude::*;
use vstd::string::*;

use crate::text::{
    chars_of, push_char, split, split_exec, string_from_chars, to_owned_string, views,
};

verus! {

/// The separator of path components.
pub open spec fn slash() -> Seq<char> {
    seq!['/']
}

/// `p` starts at the root.
pub open spec fn is_absolute(p: Seq<char>) -> bool {
    p.len() > 0 && p[0] == '/'
}

/// The text of `base` joined with `rel` (the rule of `Path::join`): an
/// absolute `rel` replaces `base`; otherwise one `/` stands between them
/// unless `base` is empty or already ends with `/`.
pub open spec fn join_path(base: Seq<char>, rel: Seq<char>) -> Seq<char> {
    if is_absolute(rel) {
        rel
    } else if base.len() == 0 || base.last() == '/' {
        base + rel
    } else {
        base + slash() + rel
    }
}

/// The manifest of the package in `dir`: `dir` joined with `package.json`.
pub fn manifest_path(dir: &str) -> (r: String)
    ensures
        r@ == join_path(dir@, "package.json"@),
{
    join(dir, "package.json")
}

/// Joins `rel` onto `base` as `Path::join` does.
pub fn join(base: &str, rel: &str) -> (r: String)
    ensures
        r@ == join_path(base@, rel@),
{
    let b = chars_of(base);
    let c = chars_of(rel);
    if c.len() > 0 && c[0] == '/' {
        return to_owned_string(rel);
    }
    let mut r = to_owned_string(base);
    if b.len() > 0 && b[b.len() - 1] != '/' {
        push_char(&mut r, '/');
    }
    r.append(rel);
    r
}

/// A segment that names something: neither empty nor `.`.
pub open spec fn is_component(seg: Seq<char>) -> bool {
    seg.len() > 0 && seg != seq!['.']
}

/// The named components of `p`, in order (`..` included).
pub open spec fn components_of(segs: Seq<Seq<char>>) -> Seq<Seq<char>>
    decreases segs.len(),
{
    if segs.len() == 0 {
        Seq::empty()
    } else if is_component(segs.last()) {
        components_of(segs.drop_last()).push(segs.last())
    } else {
        components_of(segs.drop_last())
    }
}

/// The last component of `p` when it is a name (the rule of
/// `Path::file_name`): `None` for an empty path, the root, or a path that
/// ends in `..`.
pub open spec fn file_name_of(p: Seq<char>) -> Option<Seq<char>> {
    let comps = components_of(split(p, slash()));
    if comps.len() == 0 || comps.last() == seq!['.', '.'] {
        None
    } else {
        Some(comps.last())
    }
}

/// The separator as a character vector.
pub fn slash_vec() -> (v: Vec<char>)
    ensures
        v@ == slash(),
{
    let mut v = Vec::new();
    v.push('/');
    assert(v@ =~= slash());
    v
}

fn is_component_exec(seg: &Vec<char>) -> (b: bool)
    ensures
        b == is_component(seg@),
{
    if seg.len() == 0 {
        return false;
    }
    if seg.len() == 1 && seg[0] == '.' {
        assert(seg@ =~= seq!['.']);
        return false;
    }
    assert(seg@ != seq!['.']) by {
        if seg@.len() == 1 {
            assert(seg@[0] != seq!['.'][0]);
        }
    }
    true
}

/// The last component of `path` when it is a name, as `Path::file_name`.
pub fn file_name(path: &str) -> (r: Option<String>)
    ensures
        match r {
            Some(s) => file_name_of(path@) == Some(s@),
            None => file_name_of(path@) is None,
        },
{
    let v = chars_of(path);
    let sep = slash_vec();
    let segs = split_exec(&v, &sep);
    let mut i = segs.len();
    assert(views(segs@).subrange(0, i as int) =~= views(segs@));
    while i > 0 && !is_component_exec(&segs[i - 1])
        invariant
            i <= segs@.len(),
            views(segs@) == split(v@, slash()),
            components_of(views(segs@).subrange(0, i as int)) == components_of(views(segs@)),
        decreases i,
    {
        let ghost t = views(segs@).subrange(0, i as int);
        assert(t.drop_last() =~= views(segs@).subrange(0, i - 1));
        i = i - 1;
    }
    let ghost t = views(segs@).subrange(0, i as int);
    if i == 0 {
        assert(t =~= Seq::<Seq<char>>::empty());
        return None;
    }
    assert(t.drop_last() =~= views(segs@).subrange(0, i - 1));
    let last = &segs[i - 1];
    if last.len() == 2 && last[0] == '.' && last[1] == '.' {
        assert(last@ =~= seq!['.', '.']);
        return None;
    }
    assert(last@ != seq!['.', '.']) by {
        if last@.len() == 2 {
            if last@[0] != '.' {
                assert(last@[0] != seq!['.', '.'][0]);
            } else {
                assert(last@[1] != seq!['.', '.'][1]);
            }
        }
    }
    Some(string_from_chars(last))
}


/// The named components of `path`, in order (`..` included).
pub fn components(path: &str) -> (r: Vec<Vec<char>>)
    ensures
        views(r@) == components_of(split(path@, slash())),
{
    let v = chars_of(path);
    let sep = slash_vec();
    let segs = split_exec(&v, &sep);
    let mut r: Vec<Vec<char>> = Vec::new();
    let mut i: usize = 0;
    assert(views(segs@).subrange(0, 0) =~= Seq::<Seq<char>>::empty());
    assert(views(r@) =~= Seq::<Seq<char>>::empty());
    while i < segs.len()
        invariant
            i <= segs@.len(),
            views(segs@) == split(v@, slash()),
            views(r@) == components_of(views(segs@).subrange(0, i as int)),
        decreases segs@.len() - i,
    {
        let ghost pre = views(segs@).subrange(0, i as int);
        assert(views(segs@).subrange(0, i + 1).drop_last() =~= pre);
        let seg = &segs[i];
        if is_component_exec(seg) {
            let ghost before = views(r@);
            r.push(crate::text::copy_chars(seg));
            assert(views(r@) =~= before.push(seg@));
        }
        i = i + 1;
    }
    assert(views(segs@).subrange(0, segs@.len() as int) =~= views(segs@));
    r
}
} // verus!
