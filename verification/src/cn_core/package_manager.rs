//! Which package manager a project uses.

use vstd::prelude::*;
use vstd::string::*;

use crate::cn_core::path::{dir_text, dir_text_exec, path_components};
use crate::cn_core::{Error, Result};
use crate::fs_query::{glob_matches, path_exists};
use crate::inputs::{globbed_view, GlobMatch, Globbed};
use crate::paths::{components, is_absolute, join, join_path};
use crate::text::{chars_of, copy_texts, texts, views};

verus! {

/// Supported package managers
#[derive(Debug, Clone, Copy, PartialEq, Eq, Structural)]
pub enum PackageManager {
    /// npm (default)
    Npm,
    /// Yarn Classic (v1)
    Yarn,
    /// Yarn Berry (v2+)
    YarnBerry,
    /// pnpm
    Pnpm,
}

impl Default for PackageManager {
    fn default() -> (p: Self)
        ensures
            p == PackageManager::Npm,
    {
        PackageManager::Npm
    }
}

/// The package manager that the lock files of a directory point to:
/// `yarn.lock` means Yarn (Berry when `.yarnrc.yml` is there too), else
/// `pnpm-lock.yaml` means pnpm, else npm.
pub open spec fn manager_for_lockfiles(yarn_lock: bool, yarnrc_yml: bool, pnpm_lock: bool) -> PackageManager {
    if yarn_lock {
        if yarnrc_yml {
            PackageManager::YarnBerry
        } else {
            PackageManager::Yarn
        }
    } else if pnpm_lock {
        PackageManager::Pnpm
    } else {
        PackageManager::Npm
    }
}

/// Decides the package manager from which lock files are present.
pub fn package_manager_for(yarn_lock: bool, yarnrc_yml: bool, pnpm_lock: bool) -> (p: PackageManager)
    ensures
        p == manager_for_lockfiles(yarn_lock, yarnrc_yml, pnpm_lock),
{
    if yarn_lock {
        if yarnrc_yml {
            PackageManager::YarnBerry
        } else {
            PackageManager::Yarn
        }
    } else if pnpm_lock {
        PackageManager::Pnpm
    } else {
        PackageManager::Npm
    }
}

/// The files whose presence in `dir` decides its package manager:
/// `yarn.lock`, `.yarnrc.yml` and `pnpm-lock.yaml` in `dir`.
pub fn lockfile_paths(dir: &str) -> (r: (String, String, String))
    ensures
        r.0@ == join_path(dir@, "yarn.lock"@),
        r.1@ == join_path(dir@, ".yarnrc.yml"@),
        r.2@ == join_path(dir@, "pnpm-lock.yaml"@),
{
    (join(dir, "yarn.lock"), join(dir, ".yarnrc.yml"), join(dir, "pnpm-lock.yaml"))
}

/// Detects the package manager used in `dir` from the lock files found
/// there: the disk is asked whether the files of `lockfile_paths` exist
/// (`.yarnrc.yml` only where `yarn.lock` is, `pnpm-lock.yaml` only where
/// it is not), and `package_manager_for` decides from the answers.
pub fn detect_package_manager(dir: &str) -> (p: PackageManager)
    ensures
        exists|y: bool, r: bool, n: bool| p == manager_for_lockfiles(y, r, n),
{
    let (yarn_path, yarnrc_path, pnpm_path) = lockfile_paths(dir);
    let yarn_lock = path_exists(yarn_path.as_str());
    let yarnrc = if yarn_lock {
        path_exists(yarnrc_path.as_str())
    } else {
        false
    };
    let pnpm = if yarn_lock {
        false
    } else {
        path_exists(pnpm_path.as_str())
    };
    let p = package_manager_for(yarn_lock, yarnrc, pnpm);
    assert(p == manager_for_lockfiles(yarn_lock, yarnrc, pnpm));
    p
}


/// The workspace declaration of a manifest: a list of patterns, or Yarn's
/// object form with the patterns under `packages`.
#[derive(Debug, Clone)]
pub enum WorkspaceSpec {
    /// Array of workspace glob patterns
    Patterns(Vec<String>),
    /// Yarn workspace configuration object
    YarnConfig { packages: Vec<String>, nohoist: Vec<String> },
}

/// The patterns that a workspace declaration lists; none without one.
pub open spec fn declared_patterns(ws: Option<WorkspaceSpec>) -> Seq<Seq<char>> {
    match ws {
        Some(WorkspaceSpec::Patterns(p)) => texts(p@),
        Some(WorkspaceSpec::YarnConfig { packages, .. }) => texts(packages@),
        None => Seq::empty(),
    }
}

/// The patterns that a workspace declaration lists (see `declared_patterns`).
pub fn workspace_patterns(ws: &Option<WorkspaceSpec>) -> (r: Vec<String>)
    ensures
        texts(r@) == declared_patterns(*ws),
{
    match ws {
        Some(WorkspaceSpec::Patterns(p)) => copy_texts(p),
        Some(WorkspaceSpec::YarnConfig { packages, .. }) => copy_texts(packages),
        None => Vec::new(),
    }
}

/// The directories searched for the root of a workspace around `dir`, in
/// order: `dir` itself, then `dir` with its last components dropped one
/// by one, as long as a component is left (the directory above each is
/// what the search moves to, and the root itself is never searched).
pub open spec fn root_candidates(dir: Seq<char>) -> Seq<Seq<char>> {
    let comps = path_components(dir);
    Seq::new(
        comps.len(),
        |k: int|
            if k == 0 {
                dir
            } else {
                dir_text(is_absolute(dir), comps.take(comps.len() - k))
            },
    )
}

/// The directories searched for the root of a workspace around `dir` (see
/// `root_candidates`).
pub fn workspace_root_candidates(dir: &str) -> (r: Vec<String>)
    ensures
        texts(r@) == root_candidates(dir@),
{
    let comps = components(dir);
    let v = chars_of(dir);
    let abs = v.len() > 0 && v[0] == '/';
    let n = comps.len();
    let ghost want = root_candidates(dir@);
    let mut r: Vec<String> = Vec::new();
    let mut k: usize = 0;
    while k < n
        invariant
            k <= n,
            n == comps@.len(),
            views(comps@) == path_components(dir@),
            abs == is_absolute(dir@),
            want == root_candidates(dir@),
            texts(r@) == want.take(k as int),
        decreases n - k,
    {
        let ghost before = texts(r@);
        let c = if k == 0 {
            dir.to_owned()
        } else {
            dir_text_exec(abs, &comps, n - k)
        };
        assert(c@ == want[k as int]);
        r.push(c);
        assert(texts(r@) =~= before.push(c@));
        assert(want.take(k + 1) =~= want.take(k as int).push(want[k as int]));
        k = k + 1;
    }
    assert(want.take(n as int) =~= want);
    r
}

/// The first of `candidates` whose manifest declares a workspace
/// (`declares[i]` for `candidates[i]`), if any.
pub fn first_declaring(candidates: &Vec<String>, declares: &Vec<bool>) -> (r: Option<String>)
    requires
        declares@.len() == candidates@.len(),
    ensures
        match r {
            Some(d) => exists|i: int|
                0 <= i < candidates@.len() && declares@[i] && d@ == candidates@[i]@ && forall|j: int|
                    0 <= j < i ==> !#[trigger] declares@[j],
            None => forall|i: int| 0 <= i < declares@.len() ==> !#[trigger] declares@[i],
        },
{
    let mut i: usize = 0;
    while i < candidates.len()
        invariant
            i <= candidates@.len(),
            declares@.len() == candidates@.len(),
            forall|j: int| 0 <= j < i ==> !#[trigger] declares@[j],
        decreases candidates@.len() - i,
    {
        if declares[i] {
            return Some(candidates[i].clone());
        }
        i = i + 1;
    }
    None
}

/// Why listing the packages of a workspace failed.
pub enum WorkspaceFailure {
    /// A pattern is not a glob pattern, with the reason.
    BadPattern(Seq<char>),
    /// A directory could not be read, with the system's message.
    Unreadable(Seq<char>),
}

/// The matches `ms` taken in order into `found`: a match with a manifest
/// in it is a package; the first unreadable match ends it.
pub open spec fn take_packages(
    found: Seq<Seq<char>>,
    ms: Seq<(core::result::Result<Seq<char>, Seq<char>>, bool)>,
) -> core::result::Result<Seq<Seq<char>>, Seq<char>>
    decreases ms.len(),
{
    if ms.len() == 0 {
        Ok(found)
    } else {
        match take_packages(found, ms.drop_last()) {
            Err(e) => Err(e),
            Ok(f) => match ms.last().0 {
                Err(e) => Err(e),
                Ok(p) => if ms.last().1 {
                    Ok(f.push(p))
                } else {
                    Ok(f)
                },
            },
        }
    }
}

/// The workspace packages that the first `n` patterns give, pattern `i`
/// having globbed to `globbed[i]` (a match flagged when it holds a
/// manifest).
pub open spec fn workspace_packages_outcome(
    globbed: Seq<core::result::Result<Seq<(core::result::Result<Seq<char>, Seq<char>>, bool)>, Seq<char>>>,
    n: nat,
) -> core::result::Result<Seq<Seq<char>>, WorkspaceFailure>
    decreases n,
{
    if n == 0 {
        Ok(Seq::empty())
    } else {
        let m = (n - 1) as nat;
        match workspace_packages_outcome(globbed, m) {
            Err(e) => Err(e),
            Ok(f) => match globbed[m as int] {
                Err(e) => Err(WorkspaceFailure::BadPattern(e)),
                Ok(ms) => match take_packages(f, ms) {
                    Err(e) => Err(WorkspaceFailure::Unreadable(e)),
                    Ok(g) => Ok(g),
                },
            },
        }
    }
}

/// `r` is `outcome`: a bad pattern as `Error::Template`, an unreadable
/// directory as `Error::Io`.
pub open spec fn packages_agree(r: Result<Vec<String>>, outcome: core::result::Result<Seq<Seq<char>>, WorkspaceFailure>) -> bool {
    match outcome {
        Ok(f) => r matches Ok(v) && texts(v@) == f,
        Err(WorkspaceFailure::BadPattern(e)) => r matches Err(Error::Template(m)) && m@
            == "Invalid glob pattern: "@ + e,
        Err(WorkspaceFailure::Unreadable(e)) => r matches Err(Error::Io(m)) && m@ == e,
    }
}

proof fn lemma_take_packages_failed(
    found: Seq<Seq<char>>,
    ms: Seq<(core::result::Result<Seq<char>, Seq<char>>, bool)>,
    k: int,
)
    requires
        0 <= k <= ms.len(),
        take_packages(found, ms.take(k)) is Err,
    ensures
        take_packages(found, ms) == take_packages(found, ms.take(k)),
    decreases ms.len() - k,
{
    if k == ms.len() {
        assert(ms.take(k) =~= ms);
    } else {
        assert(ms.take(k + 1).drop_last() =~= ms.take(k));
        lemma_take_packages_failed(found, ms, k + 1);
    }
}

proof fn lemma_packages_failed(
    globbed: Seq<core::result::Result<Seq<(core::result::Result<Seq<char>, Seq<char>>, bool)>, Seq<char>>>,
    m: nat,
    n: nat,
)
    requires
        m <= n,
        workspace_packages_outcome(globbed, m) is Err,
    ensures
        workspace_packages_outcome(globbed, n) == workspace_packages_outcome(globbed, m),
    decreases n - m,
{
    if n > m {
        lemma_packages_failed(globbed, m, (n - 1) as nat);
    }
}

/// Lists the packages of a workspace from what globbing each pattern gave
/// (see `workspace_packages_outcome`).
pub fn workspace_packages_from(globbed: &Vec<Globbed>) -> (r: Result<Vec<String>>)
    ensures
        packages_agree(
            r,
            workspace_packages_outcome(
                globbed@.map_values(|g: Globbed| globbed_view(g)),
                globbed@.len() as nat,
            ),
        ),
{
    let ghost gv = globbed@.map_values(|g: Globbed| globbed_view(g));
    let mut found: Vec<String> = Vec::new();
    assert(texts(found@) =~= Seq::<Seq<char>>::empty());
    let mut i: usize = 0;
    while i < globbed.len()
        invariant
            i <= globbed@.len(),
            gv == globbed@.map_values(|g: Globbed| globbed_view(g)),
            workspace_packages_outcome(gv, i as nat) == Ok::<Seq<Seq<char>>, WorkspaceFailure>(texts(found@)),
        decreases globbed@.len() - i,
    {
        assert(gv[i as int] == globbed_view(globbed@[i as int]));
        match &globbed[i] {
            Err(e) => {
                let mut m = String::from_str("Invalid glob pattern: ");
                m.append(e.as_str());
                proof {
                    lemma_packages_failed(gv, (i + 1) as nat, globbed@.len() as nat);
                }
                return Err(Error::Template(m));
            },
            Ok(ms) => {
                let ghost mv = ms@.map_values(|m: GlobMatch| crate::inputs::match_view(m));
                let ghost start = texts(found@);
                let mut k: usize = 0;
                assert(mv.take(0) =~= Seq::<(core::result::Result<Seq<char>, Seq<char>>, bool)>::empty());
                while k < ms.len()
                    invariant
                        k <= ms@.len(),
                        i < globbed@.len(),
                        gv == globbed@.map_values(|g: Globbed| globbed_view(g)),
                        workspace_packages_outcome(gv, i as nat) == Ok::<Seq<Seq<char>>, WorkspaceFailure>(start),
                        gv[i as int] == Ok::<Seq<(core::result::Result<Seq<char>, Seq<char>>, bool)>, Seq<char>>(mv),
                        mv == ms@.map_values(|m: GlobMatch| crate::inputs::match_view(m)),
                        take_packages(start, mv.take(k as int)) == Ok::<Seq<Seq<char>>, Seq<char>>(texts(found@)),
                    decreases ms@.len() - k,
                {
                    assert(mv.take(k + 1).drop_last() =~= mv.take(k as int));
                    assert(mv.take(k + 1).last() == crate::inputs::match_view(ms@[k as int]));
                    match &ms[k].0 {
                        Err(e) => {
                            proof {
                                lemma_take_packages_failed(start, mv, k + 1);
                                lemma_packages_failed(gv, (i + 1) as nat, globbed@.len() as nat);
                            }
                            return Err(Error::Io(e.clone()));
                        },
                        Ok(p) => {
                            if ms[k].1 {
                                let ghost before = texts(found@);
                                found.push(p.clone());
                                assert(texts(found@) =~= before.push(p@));
                            }
                        },
                    }
                    k = k + 1;
                }
                assert(mv.take(ms@.len() as int) =~= mv);
            },
        }
        i = i + 1;
    }
    Ok(found)
}

/// Lists the packages of the workspace at `root` that `workspaces`
/// declares: each pattern is joined onto `root` and globbed, and each
/// match holding a `package.json` is a package. Whatever the disk holds,
/// the result is what `workspace_packages_outcome` gives for some outcome
/// of globbing each pattern.
pub fn get_workspace_packages(root: &str, workspaces: &Option<WorkspaceSpec>) -> (r: Result<Vec<String>>)
    ensures
        exists|g: Seq<core::result::Result<Seq<(core::result::Result<Seq<char>, Seq<char>>, bool)>, Seq<char>>>|
            g.len() == declared_patterns(*workspaces).len() && #[trigger] packages_agree(
                r,
                workspace_packages_outcome(g, declared_patterns(*workspaces).len()),
            ),
{
    let patterns = workspace_patterns(workspaces);
    let mut globbed: Vec<Globbed> = Vec::new();
    let mut i: usize = 0;
    while i < patterns.len()
        invariant
            i <= patterns@.len(),
            globbed@.len() == i,
        decreases patterns@.len() - i,
    {
        let pattern = join(root, patterns[i].as_str());
        let g: Globbed = match glob_matches(pattern.as_str()) {
            Err(e) => Err(e),
            Ok(found) => {
                let mut rest = found;
                let mut ms: Vec<GlobMatch> = Vec::new();
                while rest.len() > 0
                    decreases rest@.len(),
                {
                    let m: GlobMatch = match rest.remove(0) {
                        Ok(p) => {
                            let manifest = crate::paths::manifest_path(p.as_str());
                            let has = path_exists(manifest.as_str());
                            (Ok(p), has)
                        },
                        Err((_, io)) => (Err(io), false),
                    };
                    ms.push(m);
                }
                Ok(ms)
            },
        };
        globbed.push(g);
        i = i + 1;
    }
    let r = workspace_packages_from(&globbed);
    proof {
        let gv = globbed@.map_values(|g: Globbed| globbed_view(g));
        assert(packages_agree(r, workspace_packages_outcome(gv, declared_patterns(*workspaces).len())));
    }
    r
}


/// `p` starts with a `.` component, which `std::path` keeps at the front
/// of a relative path.
pub open spec fn leads_with_dot(p: Seq<char>) -> bool {
    p.len() >= 1 && p[0] == '.' && (p.len() == 1 || p[1] == '/')
}

/// Two paths name the same place as `std::path` compares them on Unix:
/// both from the root or neither, both led by `.` or neither, and the same
/// named components.
pub open spec fn same_place(a: Seq<char>, b: Seq<char>) -> bool {
    is_absolute(a) == is_absolute(b) && leads_with_dot(a) == leads_with_dot(b) && path_components(a)
        == path_components(b)
}

fn same_chars(a: &Vec<char>, b: &Vec<char>) -> (r: bool)
    ensures
        r == (a@ == b@),
{
    if a.len() != b.len() {
        return false;
    }
    let mut i: usize = 0;
    while i < a.len()
        invariant
            i <= a@.len(),
            a@.len() == b@.len(),
            forall|j: int| 0 <= j < i ==> a@[j] == b@[j],
        decreases a@.len() - i,
    {
        if a[i] != b[i] {
            return false;
        }
        i = i + 1;
    }
    assert(a@ =~= b@);
    true
}

/// Whether `a` and `b` name the same place (see `same_place`).
pub fn same_place_exec(a: &str, b: &str) -> (r: bool)
    ensures
        r == same_place(a@, b@),
{
    let va = chars_of(a);
    let vb = chars_of(b);
    let abs_a = va.len() > 0 && va[0] == '/';
    let abs_b = vb.len() > 0 && vb[0] == '/';
    let dot_a = va.len() >= 1 && va[0] == '.' && (va.len() == 1 || va[1] == '/');
    let dot_b = vb.len() >= 1 && vb[0] == '.' && (vb.len() == 1 || vb[1] == '/');
    if abs_a != abs_b || dot_a != dot_b {
        return false;
    }
    let ca = components(a);
    let cb = components(b);
    if ca.len() != cb.len() {
        assert(views(ca@).len() != views(cb@).len());
        return false;
    }
    let mut i: usize = 0;
    while i < ca.len()
        invariant
            i <= ca@.len(),
            ca@.len() == cb@.len(),
            views(ca@) == path_components(a@),
            views(cb@) == path_components(b@),
            forall|j: int| 0 <= j < i ==> ca@[j]@ == cb@[j]@,
        decreases ca@.len() - i,
    {
        if !same_chars(&ca[i], &cb[i]) {
            assert(views(ca@)[i as int] != views(cb@)[i as int]);
            return false;
        }
        i = i + 1;
    }
    assert(views(ca@) =~= views(cb@));
    true
}

/// Whether the manifest `manifest` of a workspace package is read for its
/// name when the package with manifest `own_manifest` is updated: it must
/// exist and be another manifest.
pub fn is_member_manifest(own_manifest: &str, manifest: &str, exists: bool) -> (r: bool)
    ensures
        r == (exists && !same_place(manifest@, own_manifest@)),
{
    exists && !same_place_exec(manifest, own_manifest)
}

/// The name of the package being updated, which its manifest must give.
pub fn require_package_name(name: Option<String>) -> (r: Result<String>)
    ensures
        match name {
            Some(n) => r == Ok::<String, Error>(n),
            None => r matches Err(Error::Workspace(m)) && m@ == "Package name not found"@,
        },
{
    match name {
        Some(n) => Ok(n),
        None => Err(Error::Workspace(String::from_str("Package name not found"))),
    }
}

/// The names that the other members give, in order.
pub open spec fn member_dependencies(pkg_name: Seq<char>, names: Seq<Option<String>>) -> Seq<Seq<char>>
    decreases names.len(),
{
    if names.len() == 0 {
        Seq::empty()
    } else {
        let rest = member_dependencies(pkg_name, names.drop_last());
        match names.last() {
            Some(n) => if n@ != pkg_name {
                rest.push(n@)
            } else {
                rest
            },
            None => rest,
        }
    }
}

/// The packages that the package `pkg_name` comes to depend on, from the
/// names that the members' manifests give (`None` for one that gives no
/// name): every member named otherwise, in order.
pub fn workspace_dependency_names(pkg_name: &str, names: &Vec<Option<String>>) -> (r: Vec<String>)
    ensures
        texts(r@) == member_dependencies(pkg_name@, names@),
{
    let key = pkg_name.to_owned();
    let mut r: Vec<String> = Vec::new();
    let mut i: usize = 0;
    while i < names.len()
        invariant
            i <= names@.len(),
            key@ == pkg_name@,
            texts(r@) == member_dependencies(pkg_name@, names@.take(i as int)),
        decreases names@.len() - i,
    {
        assert(names@.take(i + 1).drop_last() =~= names@.take(i as int));
        assert(names@.take(i + 1).last() == names@[i as int]);
        match &names[i] {
            Some(n) => {
                if *n != key {
                    let ghost before = texts(r@);
                    r.push(n.clone());
                    assert(texts(r@) =~= before.push(n@));
                }
            },
            None => {},
        }
        i = i + 1;
    }
    assert(names@.take(names@.len() as int) =~= names@);
    r
}


/// A package never comes to depend on itself: no name that the members
/// give is added when it is the package's own.
pub proof fn law_no_dependency_on_itself(pkg_name: Seq<char>, names: Seq<Option<String>>)
    ensures
        !member_dependencies(pkg_name, names).contains(pkg_name),
    decreases names.len(),
{
    if names.len() > 0 {
        law_no_dependency_on_itself(pkg_name, names.drop_last());
        let rest = member_dependencies(pkg_name, names.drop_last());
        if let Some(n) = names.last() {
            if n@ != pkg_name {
                let g = rest.push(n@);
                assert forall|k: int| 0 <= k < g.len() implies g[k] != pkg_name by {
                    if k < rest.len() {
                        assert(g[k] == rest[k]);
                    }
                }
            }
        }
    }
}

} // verus!
