//! Checking and normalising the path of a new project.

use vstd::prelude::*;
use vstd::string::*;

use crate::cn_core::{Error, Result};
use crate::fs_query::path_exists;
use crate::fs_query::path_is_dir;
use crate::paths::{components, components_of, is_absolute, is_component, join_path, slash, slash_vec};
use crate::text::{
    chars_of, copy_chars, join, join_exec, push_char, split, split_exec, string_from_chars, views,
};

verus! {

/// Maximum path length, in bytes.
pub const MAX_PATH_LENGTH: usize = 4096;

/// Characters that are problematic in paths across platforms.
pub open spec fn is_invalid_path_char(c: char) -> bool {
    c == '<' || c == '>' || c == ':' || c == '"' || c == '|' || c == '?' || c == '*'
}

/// Refuses a path holding one of `< > : " | ? *`, naming the first one.
pub fn validate_path_chars(path: &str) -> (r: Result<()>)
    ensures
        r is Ok <==> forall|i: int| 0 <= i < path@.len() ==> !is_invalid_path_char(#[trigger] path@[i]),
        r matches Err(e) ==> exists|i: int|
            0 <= i < path@.len() && is_invalid_path_char(path@[i]) && (forall|j: int|
                0 <= j < i ==> !is_invalid_path_char(#[trigger] path@[j])) && (e matches Error::InvalidPath(m)
                && m@ == "Path contains invalid character: '"@ + seq![path@[i]] + "'"@),
{
    let v = chars_of(path);
    let mut i: usize = 0;
    while i < v.len()
        invariant
            v@ == path@,
            i <= v@.len(),
            forall|j: int| 0 <= j < i ==> !is_invalid_path_char(#[trigger] v@[j]),
        decreases v@.len() - i,
    {
        let c = v[i];
        if c == '<' || c == '>' || c == ':' || c == '"' || c == '|' || c == '?' || c == '*' {
            let mut m = String::from_str("Path contains invalid character: '");
            push_char(&mut m, c);
            m.append("'");
            return Err(Error::InvalidPath(m));
        }
        i = i + 1;
    }
    Ok(())
}

/// Refuses a path longer than `MAX_PATH_LENGTH` bytes.
pub fn validate_path_length(path: &str) -> (r: Result<()>)
    ensures
        r is Ok <==> path.len() <= MAX_PATH_LENGTH,
        r matches Err(e) ==> e matches Error::InvalidPath(m) && m@
            == "Path length exceeds maximum of 4096 characters"@,
{
    if path.len() > MAX_PATH_LENGTH {
        return Err(Error::InvalidPath(String::from_str("Path length exceeds maximum of 4096 characters")));
    }
    Ok(())
}

/// One step of normalisation: empty and `.` segments are dropped, `..`
/// removes the last kept component (the root too), a name is kept.
pub open spec fn norm_step(acc: Seq<Seq<char>>, seg: Seq<char>) -> Seq<Seq<char>> {
    if !is_component(seg) {
        acc
    } else if seg == seq!['.', '.'] {
        if acc.len() > 0 {
            acc.drop_last()
        } else {
            acc
        }
    } else {
        acc.push(seg)
    }
}

pub open spec fn norm_fold(acc: Seq<Seq<char>>, segs: Seq<Seq<char>>) -> Seq<Seq<char>>
    decreases segs.len(),
{
    if segs.len() == 0 {
        acc
    } else {
        norm_fold(norm_step(acc, segs[0]), segs.skip(1))
    }
}

/// The components that normalisation keeps: the root first when the path
/// is absolute, then the names left once `.` and `..` are resolved.
pub open spec fn normalized_components(p: Seq<char>) -> Seq<Seq<char>> {
    norm_fold(
        if is_absolute(p) {
            seq![slash()]
        } else {
            Seq::empty()
        },
        split(p, slash()),
    )
}

/// The text of a list of components, as a path built from them reads.
pub open spec fn render_components(c: Seq<Seq<char>>) -> Seq<char> {
    if c.len() > 0 && c[0] == slash() {
        slash() + join(c.skip(1), slash())
    } else {
        join(c, slash())
    }
}

/// `p` with `.` and `..` resolved textually.
pub open spec fn normalized_path(p: Seq<char>) -> Seq<char> {
    render_components(normalized_components(p))
}

proof fn lemma_norm_fold_unfold(acc: Seq<Seq<char>>, segs: Seq<Seq<char>>, k: int)
    requires
        0 <= k < segs.len(),
    ensures
        norm_fold(acc, segs.skip(k)) == norm_fold(norm_step(acc, segs[k]), segs.skip(k + 1)),
{
    assert(segs.skip(k).skip(1) =~= segs.skip(k + 1));
    assert(segs.skip(k)[0] == segs[k]);
}

/// Normalizes a path by resolving `.` and `..` components.
pub fn normalize_path(path: &str) -> (r: String)
    ensures
        r@ == normalized_path(path@),
{
    let v = chars_of(path);
    let sep = slash_vec();
    let segs = split_exec(&v, &sep);
    let mut stack: Vec<Vec<char>> = Vec::new();
    if v.len() > 0 && v[0] == '/' {
        stack.push(slash_vec());
        assert(views(stack@) =~= seq![slash()]);
    } else {
        assert(views(stack@) =~= Seq::<Seq<char>>::empty());
    }
    let mut k: usize = 0;
    assert(views(segs@).skip(0) =~= views(segs@));
    while k < segs.len()
        invariant
            k <= segs@.len(),
            views(segs@) == split(path@, slash()),
            norm_fold(views(stack@), views(segs@).skip(k as int)) == normalized_components(path@),
        decreases segs@.len() - k,
    {
        proof {
            lemma_norm_fold_unfold(views(stack@), views(segs@), k as int);
        }
        let seg = &segs[k];
        let ghost before = views(stack@);
        if seg.len() == 0 || (seg.len() == 1 && seg[0] == '.') {
            assert(!is_component(seg@)) by {
                if seg@.len() == 1 {
                    assert(seg@ =~= seq!['.']);
                }
            }
        } else if seg.len() == 2 && seg[0] == '.' && seg[1] == '.' {
            assert(seg@ =~= seq!['.', '.']);
            assert(is_component(seg@)) by {
                assert(seg@.len() != seq!['.'].len());
            }
            if stack.len() > 0 {
                stack.pop();
                assert(views(stack@) =~= before.drop_last());
            }
        } else {
            assert(is_component(seg@) && seg@ != seq!['.', '.']) by {
                if seg@.len() == 1 {
                    assert(seg@[0] != seq!['.'][0]);
                }
                if seg@.len() == 2 {
                    if seg@[0] != '.' {
                        assert(seg@[0] != seq!['.', '.'][0]);
                    } else {
                        assert(seg@[1] != seq!['.', '.'][1]);
                    }
                }
            }
            stack.push(copy_chars(seg));
            assert(views(stack@) =~= before.push(seg@));
        }
        k = k + 1;
    }
    assert(views(segs@).skip(k as int) =~= Seq::<Seq<char>>::empty());
    let out = if stack.len() > 0 && stack[0].len() == 1 && stack[0][0] == '/' {
        assert(views(stack@)[0] =~= slash());
        let mut r = slash_vec();
        let mut rest = join_exec(&stack, 1, &sep);
        r.append(&mut rest);
        r
    } else {
        assert(!(views(stack@).len() > 0 && views(stack@)[0] == slash())) by {
            if views(stack@).len() > 0 && views(stack@)[0] == slash() {
                assert(stack@[0]@ =~= slash());
                assert(stack@[0]@[0] == slash()[0]);
            }
        }
        assert(views(stack@).skip(0) =~= views(stack@));
        join_exec(&stack, 0, &sep)
    };
    string_from_chars(&out)
}

/// Checks the characters and length of a project path and, once the
/// directory checks of `directory_state` have passed, gives the path
/// normalised.
pub fn validate_and_normalize_path(path: &str, directory_state: Result<()>) -> (r: Result<
    String,
>)
    ensures
        r matches Ok(p) ==> p@ == normalized_path(path@),
        r is Ok <==> (forall|i: int| 0 <= i < path@.len() ==> !is_invalid_path_char(#[trigger] path@[i]))
            && path.len() <= MAX_PATH_LENGTH && directory_state is Ok,
        (directory_state is Err && (forall|i: int| 0 <= i < path@.len() ==> !is_invalid_path_char(#[trigger] path@[i]))
            && path.len() <= MAX_PATH_LENGTH) ==> (r is Err && r->Err_0 == directory_state->Err_0),
        !(forall|i: int| 0 <= i < path@.len() ==> !is_invalid_path_char(#[trigger] path@[i])) ==> exists|i: int|
            0 <= i < path@.len() && is_invalid_path_char(path@[i]) && (forall|j: int|
                0 <= j < i ==> !is_invalid_path_char(#[trigger] path@[j])) && (r matches Err(Error::InvalidPath(m))
                && m@ == "Path contains invalid character: '"@ + seq![path@[i]] + "'"@),
        ((forall|i: int| 0 <= i < path@.len() ==> !is_invalid_path_char(#[trigger] path@[i])) && path.len()
            > MAX_PATH_LENGTH) ==> (r matches Err(Error::InvalidPath(m)) && m@
            == "Path length exceeds maximum of 4096 characters"@),
{
    match validate_path_chars(path) {
        Err(e) => return Err(e),
        Ok(()) => {},
    }
    match validate_path_length(path) {
        Err(e) => return Err(e),
        Ok(()) => {},
    }
    match directory_state {
        Err(e) => Err(e),
        Ok(()) => Ok(normalize_path(path)),
    }
}


/// A name that normalisation keeps as it is: a component other than
/// `..`, with no separator in it.
pub open spec fn plain_name(x: Seq<char>) -> bool {
    is_component(x) && x != seq!['.', '.'] && !x.contains('/')
}

/// Components as normalisation leaves them: the root, if anywhere, first;
/// plain names everywhere else.
pub open spec fn well_shaped(c: Seq<Seq<char>>) -> bool {
    forall|i: int| 0 <= i < c.len() ==> (i == 0 && #[trigger] c[i] == slash()) || plain_name(c[i])
}

proof fn lemma_norm_fold_shape(acc: Seq<Seq<char>>, segs: Seq<Seq<char>>)
    requires
        well_shaped(acc),
        forall|i: int| 0 <= i < segs.len() ==> !(#[trigger] segs[i]).contains('/'),
    ensures
        well_shaped(norm_fold(acc, segs)),
    decreases segs.len(),
{
    if segs.len() > 0 {
        let next = norm_step(acc, segs[0]);
        assert(well_shaped(next)) by {
            if is_component(segs[0]) && segs[0] != seq!['.', '.'] {
                assert(plain_name(segs[0]));
                assert forall|i: int| 0 <= i < next.len() implies (i == 0 && #[trigger] next[i] == slash()) || plain_name(next[i]) by {
                    if i < acc.len() {
                        assert(next[i] == acc[i]);
                    }
                }
            } else if is_component(segs[0]) && acc.len() > 0 {
                assert forall|i: int| 0 <= i < next.len() implies (i == 0 && #[trigger] next[i] == slash()) || plain_name(next[i]) by {
                    assert(next[i] == acc[i]);
                }
            }
        }
        let rest = segs.skip(1);
        assert forall|i: int| 0 <= i < rest.len() implies !(#[trigger] rest[i]).contains('/') by {
            assert(rest[i] == segs[i + 1]);
        }
        lemma_norm_fold_shape(next, rest);
    }
}

proof fn lemma_norm_fold_plain(acc: Seq<Seq<char>>, names: Seq<Seq<char>>)
    requires
        forall|i: int| 0 <= i < names.len() ==> plain_name(#[trigger] names[i]),
    ensures
        norm_fold(acc, names) == acc + names,
    decreases names.len(),
{
    if names.len() == 0 {
        assert(acc + names =~= acc);
    } else {
        assert(plain_name(names[0]));
        let rest = names.skip(1);
        assert forall|i: int| 0 <= i < rest.len() implies plain_name(#[trigger] rest[i]) by {
            assert(rest[i] == names[i + 1]);
        }
        lemma_norm_fold_plain(acc.push(names[0]), rest);
        assert(acc.push(names[0]) + rest =~= acc + names);
    }
}

/// Normalising a path that is already normalised changes nothing.
pub proof fn law_normalize_idempotent(p: Seq<char>)
    ensures
        normalized_path(normalized_path(p)) == normalized_path(p),
{
    let sl = slash();
    assert(sl =~= seq!['/']);
    crate::text::lemma_split_pieces_plain(p, '/', Seq::empty());
    let init: Seq<Seq<char>> = if is_absolute(p) {
        seq![sl]
    } else {
        Seq::empty()
    };
    assert(well_shaped(init));
    lemma_norm_fold_shape(init, split(p, sl));
    let c = normalized_components(p);
    assert(well_shaped(c));
    let q = render_components(c);
    assert(normalized_components(q) == c) by {
        if c.len() > 0 && c[0] == sl {
            let r = c.skip(1);
            assert forall|i: int| 0 <= i < r.len() implies plain_name(#[trigger] r[i]) by {
                assert(r[i] == c[i + 1]);
            }
            assert(q == sl + join(r, sl));
            assert(is_absolute(q));
            crate::text::lemma_split_sep(Seq::empty(), join(r, sl), '/', Seq::empty());
            assert(Seq::<char>::empty() + seq!['/'] + join(r, sl) =~= q);
            let segs = split(q, sl);
            assert(segs == seq![Seq::<char>::empty()] + split(join(r, sl), sl)) by {
                assert(Seq::<char>::empty() + Seq::<char>::empty() =~= Seq::<char>::empty());
            }
            if r.len() >= 1 {
                assert forall|i: int| 0 <= i < r.len() implies !(#[trigger] r[i]).contains('/') by {
                    assert(plain_name(r[i]));
                }
                crate::text::lemma_split_join(r, '/');
                assert(segs.skip(1) =~= r);
                assert(!is_component(segs[0]));
                assert(norm_fold(seq![sl], segs) == norm_fold(seq![sl], segs.skip(1)));
                lemma_norm_fold_plain(seq![sl], r);
                assert(seq![sl] + r =~= c);
                assert(normalized_components(q) == norm_fold(seq![sl], segs));
                assert(norm_fold(seq![sl], segs.skip(1)) == norm_fold(seq![sl], r));
                assert(normalized_components(q) == c);
            } else {
                assert(join(r, sl) =~= Seq::<char>::empty());
                assert(split(Seq::<char>::empty(), sl) == seq![Seq::<char>::empty() + Seq::<char>::empty()]);
                assert(segs =~= seq![Seq::<char>::empty(), Seq::<char>::empty()]);
                assert(segs.skip(1) =~= seq![Seq::<char>::empty()]);
                assert(segs.skip(1).skip(1) =~= Seq::<Seq<char>>::empty());
                assert(c =~= seq![sl]);
                assert(!is_component(segs[0]));
                assert(!is_component(segs.skip(1)[0]));
                assert(norm_fold(seq![sl], segs) == norm_fold(seq![sl], segs.skip(1)));
                assert(norm_fold(seq![sl], segs.skip(1)) == norm_fold(seq![sl], segs.skip(1).skip(1)));
                assert(norm_fold(seq![sl], segs.skip(1).skip(1)) == seq![sl]);
                assert(normalized_components(q) == norm_fold(seq![sl], segs));
                assert(normalized_components(q) == c);
            }
        } else {
            assert forall|i: int| 0 <= i < c.len() implies plain_name(#[trigger] c[i]) by {
                if i == 0 {
                    assert(c[0] != sl);
                }
            }
            if c.len() == 0 {
                assert(q =~= Seq::<char>::empty());
                assert(split(q, sl) == seq![Seq::<char>::empty() + Seq::<char>::empty()]);
                assert(split(q, sl) =~= seq![Seq::<char>::empty()]);
                assert(split(q, sl).skip(1) =~= Seq::<Seq<char>>::empty());
                assert(!is_absolute(q));
                assert(!is_component(split(q, sl)[0]));
                assert(norm_fold(Seq::empty(), split(q, sl)) == norm_fold(Seq::<Seq<char>>::empty(), split(q, sl).skip(1)));
                assert(norm_fold(Seq::<Seq<char>>::empty(), split(q, sl).skip(1)) == Seq::<Seq<char>>::empty());
                assert(c =~= Seq::<Seq<char>>::empty());
                assert(normalized_components(q) == c);
            } else {
                assert(plain_name(c[0]));
                assert(c[0].len() > 0);
                assert(q[0] == c[0][0]) by {
                    if c.len() > 1 {
                        assert(q == c[0] + sl + join(c.skip(1), sl));
                    }
                }
                assert(c[0][0] != '/') by {
                    if c[0][0] == '/' {
                        assert(c[0].contains('/'));
                    }
                }
                assert(!is_absolute(q));
                assert forall|i: int| 0 <= i < c.len() implies !(#[trigger] c[i]).contains('/') by {
                    assert(plain_name(c[i]));
                }
                crate::text::lemma_split_join(c, '/');
                lemma_norm_fold_plain(Seq::empty(), c);
                assert(Seq::<Seq<char>>::empty() + c =~= c);
                assert(normalized_components(q) == norm_fold(Seq::empty(), split(q, sl)));
                assert(normalized_components(q) == c);
            }
        }
    }
}


/// A directory written from whether it starts at the root and its
/// components, `/` between them.
pub open spec fn dir_text(abs: bool, comps: Seq<Seq<char>>) -> Seq<char> {
    if abs {
        slash() + join(comps, slash())
    } else {
        join(comps, slash())
    }
}

/// The named components of `p` (empty and `.` components dropped).
pub open spec fn path_components(p: Seq<char>) -> Seq<Seq<char>> {
    components_of(split(p, slash()))
}

/// The directory above `p`, as `Path::parent` finds it, written from its
/// components: `None` when `p` names no component.
pub open spec fn parent_of(p: Seq<char>) -> Option<Seq<char>> {
    let comps = path_components(p);
    if comps.len() == 0 {
        None
    } else {
        Some(dir_text(is_absolute(p), comps.drop_last()))
    }
}

/// The directory that receives a project at `path`: the parent of `path`
/// (`.` when it has none) joined onto `current_dir` unless it is absolute.
pub open spec fn absolute_parent(path: Seq<char>, current_dir: Seq<char>) -> Seq<char> {
    join_path(
        current_dir,
        match parent_of(path) {
            Some(q) => q,
            None => seq!['.'],
        },
    )
}

/// How many directories stand above the directory that receives `path`.
pub open spec fn ancestor_count(path: Seq<char>, current_dir: Seq<char>) -> nat {
    path_components(absolute_parent(path, current_dir)).len()
}

/// The `k`-th directory above the one that receives `path` (the nearest is
/// the first): that directory with its last `k` components dropped.
pub open spec fn ancestor(path: Seq<char>, current_dir: Seq<char>, k: nat) -> Seq<char> {
    let q = absolute_parent(path, current_dir);
    let comps = path_components(q);
    dir_text(is_absolute(q), comps.take(comps.len() - k))
}

/// What remains to be checked of a directory once its shape is known.
#[derive(Debug, Clone, PartialEq, Eq)]
pub enum DirectoryCheck {
    /// Nothing: no directory above the path exists and the path is absolute.
    Unchecked,
    /// The owner of this directory must be allowed to write in it.
    WriteAccess(String),
}

/// What the directory checks conclude from what the disk showed: whether
/// `path` exists and is a directory, whether the directory that receives it
/// exists, and the first directory above that one which exists, if any.
/// `Ok(Some(d))` asks for write access to `d`; `Err` carries the message.
pub open spec fn directory_check_outcome(
    path: Seq<char>,
    must_exist: bool,
    current_dir: Seq<char>,
    exists: bool,
    is_dir: bool,
    parent_exists: bool,
    first_existing_ancestor: Option<nat>,
) -> core::result::Result<Option<Seq<char>>, Seq<char>> {
    if must_exist && !exists {
        Err("Path not found: "@ + path)
    } else if exists && !is_dir {
        Err("Not a directory: "@ + path)
    } else if parent_exists {
        Ok(Some(absolute_parent(path, current_dir)))
    } else {
        match first_existing_ancestor {
            Some(k) => Ok(Some(ancestor(path, current_dir, k))),
            None => if !is_absolute(path) {
                Err("Cannot determine write permissions for path: "@ + path)
            } else {
                Ok(None)
            },
        }
    }
}

/// `r` is what `directory_check_outcome` gives.
pub open spec fn check_agrees(
    r: Result<DirectoryCheck>,
    outcome: core::result::Result<Option<Seq<char>>, Seq<char>>,
) -> bool {
    match outcome {
        Ok(None) => r == Ok::<DirectoryCheck, Error>(DirectoryCheck::Unchecked),
        Ok(Some(d)) => r matches Ok(DirectoryCheck::WriteAccess(t)) && t@ == d,
        Err(m) => r matches Err(Error::InvalidPath(t)) && t@ == m,
    }
}

/// Writes the directory made of `comps[..m]`, from the root when `abs`.
pub fn dir_text_exec(abs: bool, comps: &Vec<Vec<char>>, m: usize) -> (r: String)
    requires
        m <= comps@.len(),
    ensures
        r@ == dir_text(abs, views(comps@).take(m as int)),
{
    let mut prefix: Vec<Vec<char>> = Vec::new();
    let mut i: usize = 0;
    while i < m
        invariant
            i <= m <= comps@.len(),
            views(prefix@) == views(comps@).take(i as int),
        decreases m - i,
    {
        let ghost before = views(prefix@);
        prefix.push(copy_chars(&comps[i]));
        assert(views(prefix@) =~= before.push(comps@[i as int]@));
        assert(views(comps@).take(i + 1) =~= views(comps@).take(i as int).push(comps@[i as int]@));
        i = i + 1;
    }
    let sep = slash_vec();
    let body = join_exec(&prefix, 0, &sep);
    assert(views(prefix@).skip(0) =~= views(prefix@));
    if abs {
        let mut r = String::new();
        push_char(&mut r, '/');
        let tail = string_from_chars(&body);
        r.append(tail.as_str());
        assert(r@ =~= slash() + body@);
        r
    } else {
        string_from_chars(&body)
    }
}

/// The directory above `path` (see `parent_of`).
pub fn parent_dir(path: &str) -> (r: Option<String>)
    ensures
        match r {
            Some(q) => parent_of(path@) == Some(q@),
            None => parent_of(path@) is None,
        },
{
    let comps = components(path);
    if comps.len() == 0 {
        return None;
    }
    let v = chars_of(path);
    let abs = v.len() > 0 && v[0] == '/';
    let r = dir_text_exec(abs, &comps, comps.len() - 1);
    assert(views(comps@).take(comps@.len() - 1) =~= views(comps@).drop_last());
    Some(r)
}

/// The directory above `path`, `.` when it has none (see `parent_of`).
fn parent_or_dot(path: &str) -> (r: String)
    ensures
        r@ == match parent_of(path@) {
            Some(q) => q,
            None => seq!['.'],
        },
{
    match parent_dir(path) {
        Some(q) => q,
        None => {
            let mut r = String::new();
            push_char(&mut r, '.');
            assert(r@ =~= seq!['.']);
            r
        },
    }
}

/// Judges the state of the directory that a project goes into, from what
/// the disk showed (see `directory_check_outcome`); `first_existing_ancestor`
/// counts from 1, the directory just above the one that receives `path`.
pub fn directory_check(
    path: &str,
    must_exist: bool,
    current_dir: &str,
    exists: bool,
    is_dir: bool,
    parent_exists: bool,
    first_existing_ancestor: Option<usize>,
) -> (r: Result<DirectoryCheck>)
    requires
        first_existing_ancestor matches Some(k) ==> 1 <= k <= ancestor_count(path@, current_dir@),
    ensures
        check_agrees(
            r,
            directory_check_outcome(
                path@,
                must_exist,
                current_dir@,
                exists,
                is_dir,
                parent_exists,
                match first_existing_ancestor {
                    Some(k) => Some(k as nat),
                    None => None,
                },
            ),
        ),
{
    if must_exist && !exists {
        let mut m = String::from_str("Path not found: ");
        m.append(path);
        return Err(Error::InvalidPath(m));
    }
    if exists && !is_dir {
        let mut m = String::from_str("Not a directory: ");
        m.append(path);
        return Err(Error::InvalidPath(m));
    }
    let parent = parent_or_dot(path);
    let abs_parent = crate::paths::join(current_dir, parent.as_str());
    if parent_exists {
        return Ok(DirectoryCheck::WriteAccess(abs_parent));
    }
    match first_existing_ancestor {
        Some(k) => {
            let comps = components(abs_parent.as_str());
            let v = chars_of(abs_parent.as_str());
            let abs = v.len() > 0 && v[0] == '/';
            let d = dir_text_exec(abs, &comps, comps.len() - k);
            Ok(DirectoryCheck::WriteAccess(d))
        },
        None => {
            let v = chars_of(path);
            if !(v.len() > 0 && v[0] == '/') {
                let mut m = String::from_str("Cannot determine write permissions for path: ");
                m.append(path);
                Err(Error::InvalidPath(m))
            } else {
                Ok(DirectoryCheck::Unchecked)
            }
        },
    }
}

/// Checks the directory that a project goes into, asking the disk: a path
/// that must exist does, an existing path is a directory, and the directory
/// that receives it, or else the nearest existing directory above that one,
/// is the one whose write access decides (see `write_access_verdict`).
/// `current_dir` is the working directory that relative paths start from.
/// Whatever the disk answered, the result is what `directory_check_outcome`
/// gives for some answers, the ancestor among those that exist.
pub fn validate_directory_state(path: &str, must_exist: bool, current_dir: &str) -> (r: Result<
    DirectoryCheck,
>)
    ensures
        exists|e: bool, d: bool, pe: bool, f: Option<nat>|
            (f matches Some(k) ==> 1 <= k <= ancestor_count(path@, current_dir@)) && check_agrees(
                r,
                #[trigger] directory_check_outcome(path@, must_exist, current_dir@, e, d, pe, f),
            ),
{
    let exists = path_exists(path);
    let is_dir = path_is_dir(path);
    let parent = parent_or_dot(path);
    let abs_parent = crate::paths::join(current_dir, parent.as_str());
    let parent_exists = path_exists(abs_parent.as_str());
    let mut first: Option<usize> = None;
    if !parent_exists {
        let comps = components(abs_parent.as_str());
        let v = chars_of(abs_parent.as_str());
        let abs = v.len() > 0 && v[0] == '/';
        let n = comps.len();
        let mut j: usize = 0;
        while j < n
            invariant
                j <= n,
                n == comps@.len(),
                first matches Some(k) ==> 1 <= k <= n,
            decreases n - j,
        {
            let d = dir_text_exec(abs, &comps, n - j - 1);
            if path_exists(d.as_str()) {
                first = Some(j + 1);
                break;
            }
            j = j + 1;
        }
        proof {
            assert(views(comps@) == path_components(abs_parent@));
        }
    }
    let r = directory_check(path, must_exist, current_dir, exists, is_dir, parent_exists, first);
    proof {
        let f = match first {
            Some(k) => Some(k as nat),
            None => None,
        };
        assert(check_agrees(r, directory_check_outcome(path@, must_exist, current_dir@, exists, is_dir, parent_exists, f)));
    }
    r
}

/// The verdict on a directory check once the write permission of the
/// directory it names is known (the owner's write bit, on Unix).
pub fn write_access_verdict(check: DirectoryCheck, owner_can_write: bool) -> (r: Result<()>)
    ensures
        match check {
            DirectoryCheck::Unchecked => r is Ok,
            DirectoryCheck::WriteAccess(d) => if owner_can_write {
                r is Ok
            } else {
                r matches Err(Error::Permission(m)) && m@ == "Write permission denied: "@ + d@
            },
        },
{
    match check {
        DirectoryCheck::Unchecked => Ok(()),
        DirectoryCheck::WriteAccess(d) => {
            if owner_can_write {
                Ok(())
            } else {
                let mut m = String::from_str("Write permission denied: ");
                m.append(d.as_str());
                Err(Error::Permission(m))
            }
        },
    }
}

} // verus!
