//! Dependency specifications and their validation.

use vstd::prelude::*;
use vstd::string::*;

use crate::cn_core::registry::RegistryResponse;
use crate::cn_core::{Error, Result};
use crate::text::{copy_texts, texts};

verus! {

/// Dependency specification with version requirements
#[derive(Debug, Clone)]
pub struct DependencySpec {
    /// Package name
    pub name: String,
    /// Version requirement
    pub version_req: String,
    /// Whether this is a peer dependency
    pub peer: bool,
    /// Whether this is an optional dependency
    pub optional: bool,
}

/// What `semver::VersionReq::parse` says of `text`: `None` when it parses,
/// else the message of its error.
pub uninterp spec fn version_req_parse_error(text: Seq<char>) -> Option<Seq<char>>;

/// Parses `text` with `semver::VersionReq::parse` and keeps only whether
/// it succeeded and, if not, the error's message. The contract claims that
/// the outcome is a function of the text alone, named
/// `version_req_parse_error`; what that function is, is left to semver.
#[verifier::external_body]
fn parse_version_req(text: &str) -> (r: core::result::Result<(), String>)
    ensures
        r is Ok <==> version_req_parse_error(text@) is None,
        r matches Err(m) ==> version_req_parse_error(text@) == Some(m@),
{
    match semver::VersionReq::parse(text) {
        Ok(_) => Ok(()),
        Err(e) => Err(e.to_string()),
    }
}

/// What `validate_dependency` says of a specification: a missing name
/// first, then a version requirement that semver cannot parse.
pub open spec fn dependency_spec_failure(spec: DependencySpec) -> Option<Seq<char>> {
    if spec.name@.len() == 0 {
        Some("Dependency name cannot be empty"@)
    } else {
        match version_req_parse_error(spec.version_req@) {
            None => None,
            Some(why) => Some(
                "Invalid version requirement for '"@ + spec.name@ + "': "@ + why,
            ),
        }
    }
}

/// The failure of a specification given what parsing its version
/// requirement gave: a missing name first, then a parse error.
pub open spec fn dependency_failure_given(spec: DependencySpec, parse: core::result::Result<(), Seq<char>>) -> Option<Seq<char>> {
    if spec.name@.len() == 0 {
        Some("Dependency name cannot be empty"@)
    } else {
        match parse {
            Ok(()) => None,
            Err(why) => Some("Invalid version requirement for '"@ + spec.name@ + "': "@ + why),
        }
    }
}

/// Judges a dependency specification given what parsing its version
/// requirement gave.
pub fn dependency_verdict(spec: &DependencySpec, parse: core::result::Result<(), String>) -> (r: Result<()>)
    ensures
        match dependency_failure_given(
            *spec,
            match parse {
                Ok(()) => Ok(()),
                Err(m) => Err(m@),
            },
        ) {
            None => r is Ok,
            Some(msg) => (r matches Err(Error::Template(m)) && m@ == msg),
        },
{
    if spec.name.unicode_len() == 0 {
        return Err(Error::Template(String::from_str("Dependency name cannot be empty")));
    }
    match parse {
        Ok(()) => Ok(()),
        Err(why) => {
            let mut m = String::from_str("Invalid version requirement for '");
            m.append(spec.name.as_str());
            m.append("': ");
            m.append(why.as_str());
            Err(Error::Template(m))
        },
    }
}

/// Validates a dependency specification: a name and a version
/// requirement that semver parses.
pub fn validate_dependency(spec: &DependencySpec) -> (r: Result<()>)
    ensures
        r is Ok <==> dependency_spec_failure(*spec) is None,
        r matches Err(e) ==> (e matches Error::Template(m) && dependency_spec_failure(*spec)
            == Some(m@)),
{
    let parse = parse_version_req(spec.version_req.as_str());
    dependency_verdict(spec, parse)
}


/// What `semver::Version::parse` says of `text`: whether it is a version.
pub uninterp spec fn semver_version_parses(text: Seq<char>) -> bool;

/// What `semver::VersionReq::matches` says of the requirement `req` and the
/// version `version`, both parsed from their text.
pub uninterp spec fn semver_req_matches(req: Seq<char>, version: Seq<char>) -> bool;

/// Whether the version `a` is greater than the version `b` in the order
/// that `semver::Version` implements, both parsed from their text.
pub uninterp spec fn semver_version_greater(a: Seq<char>, b: Seq<char>) -> bool;

/// Whether `semver::Version` holds the versions `a` and `b` equal, both
/// parsed from their text.
pub uninterp spec fn semver_version_eq(a: Seq<char>, b: Seq<char>) -> bool;

/// Calls `semver::Version::parse` on `text` and keeps whether it succeeded;
/// the contract claims that this is a function of the text alone.
#[verifier::external_body]
fn version_parses(text: &str) -> (r: bool)
    ensures
        r == semver_version_parses(text@),
{
    semver::Version::parse(text).is_ok()
}

/// Parses `req` and `version` and calls `semver::VersionReq::matches`; the
/// contract claims that the answer is a function of the two texts alone.
#[verifier::external_body]
fn req_matches(req: &str, version: &str) -> (r: bool)
    requires
        version_req_parse_error(req@) is None,
        semver_version_parses(version@),
    ensures
        r == semver_req_matches(req@, version@),
{
    match (semver::VersionReq::parse(req), semver::Version::parse(version)) {
        (Ok(q), Ok(v)) => q.matches(&v),
        _ => false,
    }
}

/// Parses `a` and `b` and compares them with `>` of `semver::Version`; the
/// contract claims that the answer is a function of the two texts alone.
#[verifier::external_body]
fn version_greater(a: &str, b: &str) -> (r: bool)
    requires
        semver_version_parses(a@),
        semver_version_parses(b@),
    ensures
        r == semver_version_greater(a@, b@),
{
    match (semver::Version::parse(a), semver::Version::parse(b)) {
        (Ok(x), Ok(y)) => x > y,
        _ => false,
    }
}

/// Parses `a` and `b` and compares them with `==` of `semver::Version`; the
/// contract claims that the answer is a function of the two texts alone.
#[verifier::external_body]
fn version_eq(a: &str, b: &str) -> (r: bool)
    requires
        semver_version_parses(a@),
        semver_version_parses(b@),
    ensures
        r == semver_version_eq(a@, b@),
{
    match (semver::Version::parse(a), semver::Version::parse(b)) {
        (Ok(x), Ok(y)) => x == y,
        _ => false,
    }
}

/// A source of package information, such as the npm registry.
pub trait RegistryClient {
    /// What the registry knows of the package `name`.
    fn get_package_info(&self, name: &str) -> Result<RegistryResponse>;
}

/// Resolved dependency with exact version
#[derive(Debug, Clone)]
pub struct ResolvedDependency {
    /// Package name
    pub name: String,
    /// Resolved version, as the registry wrote it
    pub version: String,
    /// Whether this is a peer dependency
    pub peer: bool,
    /// Whether this is an optional dependency
    pub optional: bool,
}

/// Dependency version conflict
#[derive(Debug, Clone)]
pub struct DependencyConflict {
    /// Package name
    pub name: String,
    /// Conflicting requirements
    pub requirements: Vec<String>,
    /// Available versions
    pub available_versions: Vec<String>,
}

/// Dependency resolution result
#[derive(Debug, Clone, Default)]
pub struct ResolutionResult {
    /// Successfully resolved dependencies
    pub resolved: Vec<ResolvedDependency>,
    /// Dependencies that couldn't be resolved
    pub unresolved: Vec<DependencySpec>,
    /// Conflicting dependencies
    pub conflicts: Vec<DependencyConflict>,
}

/// A specification as plain values: name, requirement, peer, optional.
pub type DepView = (Seq<char>, Seq<char>, bool, bool);

/// A resolved dependency as plain values: name, version, peer, optional.
pub type ResolvedView = (Seq<char>, Seq<char>, bool, bool);

/// A conflict as plain values: name, requirements, available versions.
pub type ConflictView = (Seq<char>, Seq<Seq<char>>, Seq<Seq<char>>);

/// A resolution as plain values: resolved, unresolved, conflicts.
pub type ResolutionView = (Seq<ResolvedView>, Seq<DepView>, Seq<ConflictView>);

/// A specification as plain values.
pub open spec fn dep_view(d: DependencySpec) -> DepView {
    (d.name@, d.version_req@, d.peer, d.optional)
}

/// Specifications as plain values, in order.
pub open spec fn dep_views(ds: Seq<DependencySpec>) -> Seq<DepView> {
    ds.map_values(|d: DependencySpec| dep_view(d))
}

/// A resolution as plain values.
pub open spec fn resolution_view(r: ResolutionResult) -> ResolutionView {
    (
        r.resolved@.map_values(|d: ResolvedDependency| (d.name@, d.version@, d.peer, d.optional)),
        dep_views(r.unresolved@),
        r.conflicts@.map_values(
            |c: DependencyConflict| (c.name@, texts(c.requirements@), texts(c.available_versions@)),
        ),
    )
}

/// The versions among `vs` that semver can parse, in order.
pub open spec fn parseable(vs: Seq<Seq<char>>) -> Seq<Seq<char>>
    decreases vs.len(),
{
    if vs.len() == 0 {
        Seq::empty()
    } else if semver_version_parses(vs.last()) {
        parseable(vs.drop_last()).push(vs.last())
    } else {
        parseable(vs.drop_last())
    }
}

/// The greatest version of `vs` that `req` matches, the last of them when
/// several are equally great (the rule of `Iterator::max`).
pub open spec fn best_match(req: Seq<char>, vs: Seq<Seq<char>>) -> Option<Seq<char>>
    decreases vs.len(),
{
    if vs.len() == 0 {
        None
    } else {
        let prev = best_match(req, vs.drop_last());
        let v = vs.last();
        if semver_req_matches(req, v) {
            match prev {
                Some(b) => if semver_version_greater(b, v) {
                    Some(b)
                } else {
                    Some(v)
                },
                None => Some(v),
            }
        } else {
            prev
        }
    }
}

/// The requirements that `all` places on the package `name`, in order.
pub open spec fn requirements_for(all: Seq<DepView>, name: Seq<char>) -> Seq<Seq<char>>
    decreases all.len(),
{
    if all.len() == 0 {
        Seq::empty()
    } else if all.last().0 == name {
        requirements_for(all.drop_last(), name).push(all.last().1)
    } else {
        requirements_for(all.drop_last(), name)
    }
}

/// The version last resolved for `name`, if any.
pub open spec fn last_resolved(res: Seq<ResolvedView>, name: Seq<char>) -> Option<Seq<char>>
    decreases res.len(),
{
    if res.len() == 0 {
        None
    } else if res.last().0 == name {
        Some(res.last().1)
    } else {
        last_resolved(res.drop_last(), name)
    }
}

/// One step of resolution: the specification `d`, whose package offers the
/// versions `vs`, is resolved to its best match unless another version was
/// resolved for the package before (a conflict); with no match it is a
/// conflict when the package was resolved before, else unresolved.
pub open spec fn resolve_step(all: Seq<DepView>, st: ResolutionView, d: DepView, vs: Seq<Seq<char>>) -> ResolutionView {
    let conflict = (d.0, requirements_for(all, d.0), vs);
    if version_req_parse_error(d.1) is Some {
        (st.0, st.1.push(d), st.2)
    } else {
        match best_match(d.1, vs) {
            Some(v) => match last_resolved(st.0, d.0) {
                Some(e) => if !semver_version_eq(v, e) {
                    (st.0, st.1, st.2.push(conflict))
                } else {
                    (st.0.push((d.0, v, d.2, d.3)), st.1, st.2)
                },
                None => (st.0.push((d.0, v, d.2, d.3)), st.1, st.2),
            },
            None => if last_resolved(st.0, d.0) is Some {
                (st.0, st.1, st.2.push(conflict))
            } else {
                (st.0, st.1.push(d), st.2)
            },
        }
    }
}

/// The resolution of the first `n` specifications of `all`, the package of
/// the `i`-th offering the versions `offered[i]` (those semver parses count).
pub open spec fn resolve_prefix(all: Seq<DepView>, offered: Seq<Seq<Seq<char>>>, n: nat) -> ResolutionView
    decreases n,
{
    if n == 0 {
        (Seq::empty(), Seq::empty(), Seq::empty())
    } else {
        let m = (n - 1) as nat;
        resolve_step(all, resolve_prefix(all, offered, m), all[m as int], parseable(offered[m as int]))
    }
}

/// Every version that `parseable` keeps parses.
proof fn lemma_parseable_parse(vs: Seq<Seq<char>>)
    ensures
        forall|j: int| 0 <= j < parseable(vs).len() ==> semver_version_parses(#[trigger] parseable(vs)[j]),
    decreases vs.len(),
{
    if vs.len() > 0 {
        lemma_parseable_parse(vs.drop_last());
        let p = parseable(vs.drop_last());
        if semver_version_parses(vs.last()) {
            assert forall|j: int| 0 <= j < parseable(vs).len() implies semver_version_parses(
                #[trigger] parseable(vs)[j],
            ) by {
                if j < p.len() {
                    assert(parseable(vs)[j] == p[j]);
                }
            }
        }
    }
}

/// A copy of the specification `d`.
fn copy_dependency(d: &DependencySpec) -> (r: DependencySpec)
    ensures
        dep_view(r) == dep_view(*d),
{
    DependencySpec {
        name: d.name.clone(),
        version_req: d.version_req.clone(),
        peer: d.peer,
        optional: d.optional,
    }
}

/// The versions among `vs` that semver can parse.
fn parseable_versions(vs: &Vec<String>) -> (r: Vec<String>)
    ensures
        texts(r@) == parseable(texts(vs@)),
{
    let mut r: Vec<String> = Vec::new();
    let mut i: usize = 0;
    while i < vs.len()
        invariant
            i <= vs@.len(),
            texts(r@) == parseable(texts(vs@).take(i as int)),
        decreases vs@.len() - i,
    {
        let ghost before = texts(r@);
        assert(texts(vs@).take(i + 1).drop_last() =~= texts(vs@).take(i as int));
        if version_parses(vs[i].as_str()) {
            r.push(vs[i].clone());
            assert(texts(r@) =~= before.push(vs@[i as int]@));
        } else {
            assert(texts(r@) =~= before);
        }
        i = i + 1;
    }
    assert(texts(vs@).take(vs@.len() as int) =~= texts(vs@));
    r
}

/// The greatest of `vs` that `req` matches (see `best_match`).
fn best_version(req: &str, vs: &Vec<String>) -> (r: Option<String>)
    requires
        version_req_parse_error(req@) is None,
        forall|i: int| 0 <= i < vs@.len() ==> semver_version_parses(#[trigger] vs@[i]@),
    ensures
        match r {
            Some(s) => best_match(req@, texts(vs@)) == Some(s@) && semver_version_parses(s@),
            None => best_match(req@, texts(vs@)) is None,
        },
{
    let mut best: Option<String> = None;
    let mut i: usize = 0;
    while i < vs.len()
        invariant
            i <= vs@.len(),
            version_req_parse_error(req@) is None,
            forall|j: int| 0 <= j < vs@.len() ==> semver_version_parses(#[trigger] vs@[j]@),
            match best {
                Some(s) => best_match(req@, texts(vs@).take(i as int)) == Some(s@) && semver_version_parses(s@),
                None => best_match(req@, texts(vs@).take(i as int)) is None,
            },
        decreases vs@.len() - i,
    {
        assert(texts(vs@).take(i + 1).drop_last() =~= texts(vs@).take(i as int));
        assert(texts(vs@).take(i + 1).last() == vs@[i as int]@);
        let v = &vs[i];
        assert(semver_version_parses(vs@[i as int]@));
        if req_matches(req, v.as_str()) {
            let keep = match &best {
                Some(b) => version_greater(b.as_str(), v.as_str()),
                None => false,
            };
            if !keep {
                best = Some(v.clone());
            }
        }
        i = i + 1;
    }
    assert(texts(vs@).take(vs@.len() as int) =~= texts(vs@));
    best
}

/// The requirements that `specs` place on the package `name`, in order.
fn requirements_of(specs: &Vec<DependencySpec>, name: &str) -> (r: Vec<String>)
    ensures
        texts(r@) == requirements_for(dep_views(specs@), name@),
{
    let key = name.to_owned();
    let mut r: Vec<String> = Vec::new();
    let mut i: usize = 0;
    while i < specs.len()
        invariant
            i <= specs@.len(),
            key@ == name@,
            texts(r@) == requirements_for(dep_views(specs@).take(i as int), name@),
        decreases specs@.len() - i,
    {
        let ghost before = texts(r@);
        assert(dep_views(specs@).take(i + 1).drop_last() =~= dep_views(specs@).take(i as int));
        assert(dep_views(specs@).take(i + 1).last() == dep_view(specs@[i as int]));
        if specs[i].name == key {
            r.push(specs[i].version_req.clone());
            assert(texts(r@) =~= before.push(specs@[i as int].version_req@));
        }
        i = i + 1;
    }
    assert(dep_views(specs@).take(specs@.len() as int) =~= dep_views(specs@));
    r
}

/// The version last resolved for `name` among `res`, if any.
fn last_resolved_version(res: &Vec<ResolvedDependency>, name: &str) -> (r: Option<String>)
    requires
        forall|j: int| 0 <= j < res@.len() ==> semver_version_parses(#[trigger] res@[j].version@),
    ensures
        r matches Some(s) ==> semver_version_parses(s@),
        match r {
            Some(s) => last_resolved(
                res@.map_values(|d: ResolvedDependency| (d.name@, d.version@, d.peer, d.optional)),
                name@,
            ) == Some(s@),
            None => last_resolved(
                res@.map_values(|d: ResolvedDependency| (d.name@, d.version@, d.peer, d.optional)),
                name@,
            ) is None,
        },
{
    let ghost all = res@.map_values(|d: ResolvedDependency| (d.name@, d.version@, d.peer, d.optional));
    let key = name.to_owned();
    let mut k: usize = res.len();
    assert(all.take(k as int) =~= all);
    while k > 0
        invariant
            k <= res@.len(),
            key@ == name@,
            forall|j: int| 0 <= j < res@.len() ==> semver_version_parses(#[trigger] res@[j].version@),
            all == res@.map_values(|d: ResolvedDependency| (d.name@, d.version@, d.peer, d.optional)),
            last_resolved(all, name@) == last_resolved(all.take(k as int), name@),
        decreases k,
    {
        let ghost t = all.take(k as int);
        assert(t.drop_last() =~= all.take(k - 1));
        assert(t.last() == all[k - 1]);
        if res[k - 1].name == key {
            return Some(res[k - 1].version.clone());
        }
        k = k - 1;
    }
    assert(all.take(0) =~= Seq::<ResolvedView>::empty());
    None
}

/// Resolves `specs` given, for each, the versions that its package offers
/// (`offered[i]` for `specs[i]`, as the registry lists them): each is
/// resolved to the greatest version its requirement matches, and a package
/// that ends up with two different versions, or with no match after an
/// earlier one, is a conflict (see `resolve_step`).
pub fn resolve_with_versions(specs: &Vec<DependencySpec>, offered: &Vec<Vec<String>>) -> (r: ResolutionResult)
    requires
        offered@.len() == specs@.len(),
    ensures
        resolution_view(r) == resolve_prefix(
            dep_views(specs@),
            offered@.map_values(|v: Vec<String>| texts(v@)),
            specs@.len() as nat,
        ),
{
    let ghost all = dep_views(specs@);
    let ghost offered_texts = offered@.map_values(|v: Vec<String>| texts(v@));
    let mut result = ResolutionResult { resolved: Vec::new(), unresolved: Vec::new(), conflicts: Vec::new() };
    assert(resolution_view(result) =~= resolve_prefix(all, offered_texts, 0));
    let mut i: usize = 0;
    while i < specs.len()
        invariant
            i <= specs@.len(),
            offered@.len() == specs@.len(),
            all == dep_views(specs@),
            offered_texts == offered@.map_values(|v: Vec<String>| texts(v@)),
            resolution_view(result) == resolve_prefix(all, offered_texts, i as nat),
            forall|j: int| 0 <= j < result.resolved@.len() ==> semver_version_parses(
                #[trigger] result.resolved@[j].version@,
            ),
        decreases specs@.len() - i,
    {
        let spec = &specs[i];
        let ghost st = resolution_view(result);
        let ghost d = dep_view(specs@[i as int]);
        assert(all[i as int] == d);
        let versions = parseable_versions(&offered[i]);
        assert(texts(versions@) == parseable(offered_texts[i as int]));
        assert forall|j: int| 0 <= j < versions@.len() implies semver_version_parses(#[trigger] versions@[j]@) by {
            lemma_parseable_parse(offered_texts[i as int]);
            assert(texts(versions@)[j] == versions@[j]@);
        }
        let ghost vs = texts(versions@);
        let parsed = parse_version_req(spec.version_req.as_str());
        match parsed {
            Err(_) => {
                result.unresolved.push(copy_dependency(spec));
            },
            Ok(()) => {
                let best = best_version(spec.version_req.as_str(), &versions);
                let existing = last_resolved_version(&result.resolved, spec.name.as_str());
                let conflict = match &best {
                    Some(v) => match &existing {
                        Some(e) => !version_eq(v.as_str(), e.as_str()),
                        None => false,
                    },
                    None => existing.is_some(),
                };
                if conflict {
                    let c = DependencyConflict {
                        name: spec.name.clone(),
                        requirements: requirements_of(specs, spec.name.as_str()),
                        available_versions: versions,
                    };
                    result.conflicts.push(c);
                } else {
                    match best {
                        Some(v) => {
                            result.resolved.push(
                                ResolvedDependency {
                                    name: spec.name.clone(),
                                    version: v,
                                    peer: spec.peer,
                                    optional: spec.optional,
                                },
                            );
                        },
                        None => {
                            result.unresolved.push(copy_dependency(spec));
                        },
                    }
                }
            },
        }
        i = i + 1;
    }
    result
}


/// The place of `name` among `names`, if it is there.
fn find_name(names: &Vec<String>, name: &String) -> (r: Option<usize>)
    ensures
        match r {
            Some(j) => j < names@.len() && names@[j as int]@ == name@,
            None => forall|j: int| 0 <= j < names@.len() ==> (#[trigger] names@[j])@ != name@,
        },
{
    let mut j: usize = 0;
    while j < names.len()
        invariant
            j <= names@.len(),
            forall|k: int| 0 <= k < j ==> (#[trigger] names@[k])@ != name@,
        decreases names@.len() - j,
    {
        if names[j] == *name {
            return Some(j);
        }
        j = j + 1;
    }
    None
}

/// The package names of `specs`, in order.
pub open spec fn spec_names(specs: Seq<DependencySpec>) -> Seq<Seq<char>> {
    specs.map_values(|d: DependencySpec| d.name@)
}

/// How many of the first `n` specifications come before the first invalid
/// one (`n` when all of them are valid).
pub open spec fn valid_count(specs: Seq<DependencySpec>, n: nat) -> nat
    decreases n,
{
    if n == 0 {
        0
    } else {
        let c = valid_count(specs, (n - 1) as nat);
        if c == n - 1 && dependency_spec_failure(specs[n - 1]) is None {
            n
        } else {
            c
        }
    }
}

/// The names among the first `n` of `names`, each once, in the order in
/// which they first occur.
pub open spec fn first_seen(names: Seq<Seq<char>>, n: nat) -> Seq<Seq<char>>
    decreases n,
{
    if n == 0 {
        Seq::empty()
    } else {
        let d = first_seen(names, (n - 1) as nat);
        if d.contains(names[n - 1]) {
            d
        } else {
            d.push(names[n - 1])
        }
    }
}

/// The packages that the registry is asked about, in order: each package
/// named by a specification before the first invalid one, once, when it
/// is first named.
pub open spec fn asked_names(specs: Seq<DependencySpec>) -> Seq<Seq<char>> {
    first_seen(spec_names(specs), valid_count(specs, specs.len()))
}

/// `answers` are what the registry answered about the packages of
/// `asked_names(specs)`, asked in order until one failed.
pub open spec fn answers_fit(specs: Seq<DependencySpec>, answers: Seq<Result<RegistryResponse>>) -> bool {
    &&& answers.len() <= asked_names(specs).len()
    &&& forall|k: int| 0 <= k < answers.len() - 1 ==> (#[trigger] answers[k]) is Ok
    &&& answers.len() < asked_names(specs).len() ==> answers.len() > 0 && answers.last() is Err
}

/// `r` is what resolution gives when the registry answered `answers`: the
/// registry's failure, if it failed; else the error of the first invalid
/// specification, if there is one; else the resolution of `specs` against,
/// for each, the versions that the registry listed for its package.
pub open spec fn outcome_agrees(
    specs: Seq<DependencySpec>,
    answers: Seq<Result<RegistryResponse>>,
    r: Result<ResolutionResult>,
) -> bool {
    if answers.len() > 0 && answers.last() is Err {
        r == Err::<ResolutionResult, Error>(answers.last()->Err_0)
    } else if valid_count(specs, specs.len()) < specs.len() {
        r matches Err(Error::Template(m)) && dependency_spec_failure(
            specs[valid_count(specs, specs.len()) as int],
        ) == Some(m@)
    } else {
        r matches Ok(res) && exists|offered: Seq<Seq<Seq<char>>>|
            offered.len() == specs.len() && (forall|i: int, k: int|
                #![trigger asked_names(specs)[k], specs[i]]
                0 <= i < specs.len() && 0 <= k < answers.len() && asked_names(specs)[k] == specs[i].name@
                    ==> offered[i] == texts(answers[k]->Ok_0.versions@))
                && resolution_view(res) == resolve_prefix(dep_views(specs), offered, specs.len() as nat)
    }
}

proof fn lemma_valid_count_le(specs: Seq<DependencySpec>, n: nat)
    ensures
        valid_count(specs, n) <= n,
    decreases n,
{
    if n > 0 {
        lemma_valid_count_le(specs, (n - 1) as nat);
    }
}

/// All of the first `n` specifications are valid exactly when none of
/// them comes after an invalid one.
proof fn lemma_valid_count_all(specs: Seq<DependencySpec>, n: nat)
    ensures
        valid_count(specs, n) == n <==> forall|k: int| 0 <= k < n ==> (#[trigger] dependency_spec_failure(
            specs[k],
        )) is None,
    decreases n,
{
    if n > 0 {
        lemma_valid_count_all(specs, (n - 1) as nat);
        lemma_valid_count_le(specs, (n - 1) as nat);
    }
}

/// The count stops at the first invalid specification.
proof fn lemma_valid_count_stop(specs: Seq<DependencySpec>, c: nat, n: nat)
    requires
        c < n,
        forall|k: int| 0 <= k < c ==> (#[trigger] dependency_spec_failure(specs[k])) is None,
        dependency_spec_failure(specs[c as int]) is Some,
    ensures
        valid_count(specs, n) == c,
    decreases n,
{
    if n == c + 1 {
        lemma_valid_count_all(specs, c);
    } else {
        lemma_valid_count_stop(specs, c, (n - 1) as nat);
    }
}

/// The names first seen among a prefix begin the names first seen among a
/// longer one.
proof fn lemma_first_seen_prefix(names: Seq<Seq<char>>, n: nat, m: nat)
    requires
        n <= m,
    ensures
        first_seen(names, n).len() <= first_seen(names, m).len(),
        forall|j: int| 0 <= j < first_seen(names, n).len() ==> #[trigger] first_seen(names, m)[j]
            == first_seen(names, n)[j],
    decreases m,
{
    if n < m {
        lemma_first_seen_prefix(names, n, (m - 1) as nat);
        let d = first_seen(names, (m - 1) as nat);
        if !d.contains(names[m - 1]) {
            assert forall|j: int| 0 <= j < first_seen(names, n).len() implies #[trigger] first_seen(
                names,
                m,
            )[j] == first_seen(names, n)[j] by {
                assert(first_seen(names, m)[j] == d[j]);
            }
        }
    }
}

/// No name is seen first twice.
proof fn lemma_first_seen_distinct(names: Seq<Seq<char>>, n: nat)
    ensures
        forall|a: int, b: int|
            0 <= a < first_seen(names, n).len() && 0 <= b < first_seen(names, n).len() && a != b
                ==> #[trigger] first_seen(names, n)[a] != #[trigger] first_seen(names, n)[b],
    decreases n,
{
    if n > 0 {
        lemma_first_seen_distinct(names, (n - 1) as nat);
        let d = first_seen(names, (n - 1) as nat);
        if !d.contains(names[n - 1]) {
            let e = first_seen(names, n);
            assert forall|a: int, b: int| 0 <= a < e.len() && 0 <= b < e.len() && a != b implies #[trigger] e[a]
                != #[trigger] e[b] by {
                if a < d.len() && b < d.len() {
                    assert(e[a] == d[a] && e[b] == d[b]);
                } else if a < d.len() {
                    assert(e[a] == d[a]);
                    assert(e[b] == names[n - 1]);
                } else {
                    assert(e[b] == d[b]);
                    assert(e[a] == names[n - 1]);
                }
            }
        }
    }
}

/// The names `names` hold, as text.
proof fn lemma_texts_contains(names: Seq<String>, name: Seq<char>, found: bool)
    requires
        found ==> exists|j: int| 0 <= j < names.len() && (#[trigger] names[j])@ == name,
        !found ==> forall|j: int| 0 <= j < names.len() ==> (#[trigger] names[j])@ != name,
    ensures
        texts(names).contains(name) == found,
{
    if found {
        let j = choose|j: int| 0 <= j < names.len() && (#[trigger] names[j])@ == name;
        assert(texts(names)[j] == name);
    } else {
        if texts(names).contains(name) {
            let j = choose|j: int| 0 <= j < texts(names).len() && texts(names)[j] == name;
            assert(names[j]@ == name);
        }
    }
}

/// The packages that the registry is to be asked about for `specs`, in
/// order (see `asked_names`).
pub fn registry_names(specs: &Vec<DependencySpec>) -> (r: Vec<String>)
    ensures
        texts(r@) == asked_names(specs@),
{
    let ghost all = spec_names(specs@);
    let mut names: Vec<String> = Vec::new();
    let mut i: usize = 0;
    let mut stopped = false;
    while !stopped && i < specs.len()
        invariant
            i <= specs@.len(),
            all == spec_names(specs@),
            texts(names@) == first_seen(all, i as nat),
            forall|k: int| 0 <= k < i ==> (#[trigger] dependency_spec_failure(specs@[k])) is None,
            stopped ==> i < specs@.len() && dependency_spec_failure(specs@[i as int]) is Some,
        decreases specs@.len() - i + (if stopped { 0int } else { 1int }),
    {
        let spec = &specs[i];
        if validate_dependency(spec).is_err() {
            stopped = true;
        } else {
            let ghost before = names@;
            assert(all[i as int] == spec.name@);
            match find_name(&names, &spec.name) {
                Some(j) => {
                    proof {
                        lemma_texts_contains(before, spec.name@, true);
                    }
                },
                None => {
                    proof {
                        lemma_texts_contains(before, spec.name@, false);
                    }
                    names.push(spec.name.clone());
                    assert(texts(names@) =~= texts(before).push(spec.name@));
                },
            }
            i = i + 1;
        }
    }
    proof {
        if stopped {
            lemma_valid_count_stop(specs@, i as nat, specs@.len());
        } else {
            lemma_valid_count_all(specs@, specs@.len());
        }
    }
    names
}

/// What resolution gives when the registry answered `answers` about the
/// packages of `registry_names(specs)`, asked in order until one failed
/// (see `outcome_agrees`).
pub fn resolution_outcome(specs: &Vec<DependencySpec>, answers: Vec<Result<RegistryResponse>>) -> (r: Result<ResolutionResult>)
    requires
        answers_fit(specs@, answers@),
    ensures
        outcome_agrees(specs@, answers@, r),
{
    let ghost original = answers@;
    let n = answers.len();
    if n > 0 && answers[n - 1].is_err() {
        let mut answers = answers;
        let last = answers.pop();
        return match last {
            Some(Err(e)) => Err(e),
            _ => Err(Error::Registry(String::new())),
        };
    }
    let mut i: usize = 0;
    while i < specs.len()
        invariant
            i <= specs@.len(),
            answers@ == original,
            answers_fit(specs@, original),
            !(original.len() > 0 && original.last() is Err),
            forall|k: int| 0 <= k < i ==> (#[trigger] dependency_spec_failure(specs@[k])) is None,
        decreases specs@.len() - i,
    {
        match validate_dependency(&specs[i]) {
            Err(e) => {
                proof {
                    lemma_valid_count_stop(specs@, i as nat, specs@.len());
                }
                return Err(e);
            },
            Ok(()) => {},
        }
        i = i + 1;
    }
    proof {
        lemma_valid_count_all(specs@, specs@.len());
    }
    let ghost all = spec_names(specs@);
    let ghost asked = asked_names(specs@);
    proof {
        lemma_first_seen_distinct(all, specs@.len());
        assert(answers@.len() == asked.len());
        assert forall|k: int| 0 <= k < answers@.len() implies (#[trigger] answers@[k]) is Ok by {
            if k < answers@.len() - 1 {
                assert(original[k] is Ok);
            } else {
                assert(original.last() == original[k]);
            }
        }
    }
    let mut names: Vec<String> = Vec::new();
    let mut offered: Vec<Vec<String>> = Vec::new();
    let ghost mut idx: Seq<int> = Seq::empty();
    let mut i: usize = 0;
    while i < specs.len()
        invariant
            i <= specs@.len(),
            all == spec_names(specs@),
            asked == asked_names(specs@),
            asked == first_seen(all, specs@.len()),
            answers@ == original,
            answers@.len() == asked.len(),
            forall|k: int| 0 <= k < answers@.len() ==> (#[trigger] answers@[k]) is Ok,
            forall|a: int, b: int|
                0 <= a < asked.len() && 0 <= b < asked.len() && a != b ==> #[trigger] asked[a] != #[trigger] asked[b],
            texts(names@) == first_seen(all, i as nat),
            offered@.len() == i,
            idx.len() == i,
            forall|k: int| 0 <= k < i ==> 0 <= #[trigger] idx[k] < names@.len()
                && asked[idx[k]] == specs@[k].name@
                && texts(offered@[k]@) == texts(answers@[idx[k]]->Ok_0.versions@),
        decreases specs@.len() - i,
    {
        let spec = &specs[i];
        let ghost before = names@;
        assert(all[i as int] == spec.name@);
        proof {
            lemma_first_seen_prefix(all, (i + 1) as nat, specs@.len());
            lemma_first_seen_prefix(all, i as nat, (i + 1) as nat);
            lemma_valid_count_all(specs@, specs@.len());
        }
        let j: usize = match find_name(&names, &spec.name) {
            Some(j) => {
                proof {
                    lemma_first_seen_prefix(all, i as nat, specs@.len());
                    assert(texts(names@)[j as int] == names@[j as int]@);
                }
                j
            },
            None => {
                proof {
                    lemma_texts_contains(before, spec.name@, false);
                }
                names.push(spec.name.clone());
                assert(texts(names@) =~= texts(before).push(spec.name@));
                assert(first_seen(all, (i + 1) as nat)[before.len() as int] == spec.name@);
                names.len() - 1
            },
        };
        assert(asked[j as int] == spec.name@);
        let versions = match &answers[j] {
            Ok(resp) => copy_texts(&resp.versions),
            Err(_) => Vec::new(),
        };
        offered.push(versions);
        proof {
            idx = idx.push(j as int);
        }
        i = i + 1;
    }
    let res = resolve_with_versions(specs, &offered);
    proof {
        let ot = offered@.map_values(|v: Vec<String>| texts(v@));
        assert forall|i: int, k: int|
            #![trigger asked_names(specs@)[k], specs@[i]]
            0 <= i < specs@.len() && 0 <= k < answers@.len() && asked_names(specs@)[k] == specs@[i].name@
                implies ot[i] == texts(answers@[k]->Ok_0.versions@) by {
            assert(asked[idx[i]] == asked[k]);
        }
        lemma_valid_count_all(specs@, specs@.len());
        assert(ot.len() == specs@.len());
        assert(ot.len() == specs@.len() && (forall|i: int, k: int|
            #![trigger asked_names(specs@)[k], specs@[i]]
            0 <= i < specs@.len() && 0 <= k < answers@.len() && asked_names(specs@)[k] == specs@[i].name@
                ==> ot[i] == texts(answers@[k]->Ok_0.versions@))
            && resolution_view(res) == resolve_prefix(dep_views(specs@), ot, specs@.len() as nat));
    }
    Ok(res)
}

/// Resolves dependencies to exact versions. The registry is asked about
/// the packages of `registry_names(specs)`, in order, until one answer
/// fails; `resolution_outcome` then gives the result from its answers: the
/// registry's failure, the error of the first invalid specification, or
/// the resolution of each specification against the versions that the
/// registry listed for its package.
pub fn resolve_dependencies<C: RegistryClient>(specs: &Vec<DependencySpec>, registry_client: &C) -> (r: Result<ResolutionResult>)
    ensures
        exists|answers: Seq<Result<RegistryResponse>>| answers_fit(specs@, answers) && outcome_agrees(specs@, answers, r),
        specs@.len() == 0 ==> (r matches Ok(res) && resolution_view(res) == resolve_prefix(
            dep_views(specs@),
            Seq::empty(),
            0,
        )),
        specs@.len() > 0 && dependency_spec_failure(specs@[0]) is Some ==> (r matches Err(
            Error::Template(t),
        ) && Some(t@) == dependency_spec_failure(specs@[0])),
        r is Ok ==> forall|i: int| 0 <= i < specs@.len() ==> (#[trigger] dependency_spec_failure(specs@[i])) is None,
{
    let names = registry_names(specs);
    let mut answers: Vec<Result<RegistryResponse>> = Vec::new();
    let mut stopped = false;
    while !stopped && answers.len() < names.len()
        invariant
            answers@.len() <= names@.len(),
            stopped ==> answers@.len() > 0 && answers@.last() is Err,
            !stopped ==> forall|k: int| 0 <= k < answers@.len() ==> (#[trigger] answers@[k]) is Ok,
            stopped ==> forall|k: int| 0 <= k < answers@.len() - 1 ==> (#[trigger] answers@[k]) is Ok,
        decreases names@.len() - answers@.len(),
    {
        let k = answers.len();
        let answer = registry_client.get_package_info(names[k].as_str());
        stopped = answer.is_err();
        let ghost before = answers@;
        answers.push(answer);
        assert(forall|j: int| 0 <= j < before.len() ==> answers@[j] == before[j]);
    }
    let ghost given = answers@;
    assert(texts(names@).len() == names@.len());
    let r = resolution_outcome(specs, answers);
    proof {
        if specs@.len() == 0 {
            assert(asked_names(specs@).len() == 0);
            assert(given.len() == 0);
            assert(valid_count(specs@, 0) == 0);
            if r is Ok {
                let res = r->Ok_0;
                let offered = choose|offered: Seq<Seq<Seq<char>>>|
                    offered.len() == specs@.len() && (forall|i: int, k: int|
                        #![trigger asked_names(specs@)[k], specs@[i]]
                        0 <= i < specs@.len() && 0 <= k < given.len() && asked_names(specs@)[k] == specs@[i].name@
                            ==> offered[i] == texts(given[k]->Ok_0.versions@))
                        && resolution_view(res) == resolve_prefix(dep_views(specs@), offered, specs@.len() as nat);
                assert(resolve_prefix(dep_views(specs@), offered, 0) == resolve_prefix(
                    dep_views(specs@),
                    Seq::empty(),
                    0,
                ));
            }
        }
        if specs@.len() > 0 && dependency_spec_failure(specs@[0]) is Some {
            lemma_valid_count_stop(specs@, 0, specs@.len());
            assert(asked_names(specs@).len() == 0);
        }
        if r is Ok {
            lemma_valid_count_le(specs@, specs@.len());
            lemma_valid_count_all(specs@, specs@.len());
        }
        assert(answers_fit(specs@, given) && outcome_agrees(specs@, given, r));
    }
    r
}


/// The best match of a requirement is matched by it and is one of the
/// versions offered.
proof fn lemma_best_match_offered(req: Seq<char>, vs: Seq<Seq<char>>)
    ensures
        best_match(req, vs) matches Some(v) ==> semver_req_matches(req, v) && vs.contains(v),
    decreases vs.len(),
{
    if vs.len() > 0 {
        let prev = vs.drop_last();
        lemma_best_match_offered(req, prev);
        if let Some(b) = best_match(req, prev) {
            let k = choose|k: int| 0 <= k < prev.len() && prev[k] == b;
            assert(vs[k] == b);
        }
        assert(vs[vs.len() - 1] == vs.last());
    }
}

/// A version among `parseable(vs)` is among `vs`.
proof fn lemma_parseable_sub(vs: Seq<Seq<char>>, v: Seq<char>)
    requires
        parseable(vs).contains(v),
    ensures
        vs.contains(v),
    decreases vs.len(),
{
    if vs.len() > 0 {
        let p = parseable(vs.drop_last());
        if p.contains(v) {
            lemma_parseable_sub(vs.drop_last(), v);
            let k = choose|k: int| 0 <= k < vs.drop_last().len() && vs.drop_last()[k] == v;
            assert(vs[k] == v);
        } else {
            assert(v == vs.last());
            assert(vs[vs.len() - 1] == v);
        }
    }
}

/// A resolved dependency comes from a specification: one of the first `n`
/// specifications names its package, has its peer and optional flags, and
/// has a requirement that matches its version, which is among the
/// versions offered for it.
pub open spec fn resolved_from(all: Seq<DepView>, offered: Seq<Seq<Seq<char>>>, n: nat, d: ResolvedView) -> bool {
    exists|i: int|
        0 <= i < n && #[trigger] all[i].0 == d.0 && all[i].2 == d.2 && all[i].3 == d.3
            && semver_req_matches(all[i].1, d.1) && offered[i].contains(d.1)
}

/// Every dependency that resolution yields is a version, offered for its
/// package, that one of the specifications of that package accepts, with
/// that specification's peer and optional flags.
pub proof fn law_resolved_versions_are_accepted(all: Seq<DepView>, offered: Seq<Seq<Seq<char>>>, n: nat)
    requires
        n <= all.len(),
        n <= offered.len(),
    ensures
        forall|k: int|
            0 <= k < resolve_prefix(all, offered, n).0.len() ==> resolved_from(
                all,
                offered,
                n,
                #[trigger] resolve_prefix(all, offered, n).0[k],
            ),
    decreases n,
{
    if n > 0 {
        let m = (n - 1) as nat;
        law_resolved_versions_are_accepted(all, offered, m);
        let st = resolve_prefix(all, offered, m);
        let d = all[m as int];
        let vs = parseable(offered[m as int]);
        lemma_best_match_offered(d.1, vs);
        let next = resolve_prefix(all, offered, n);
        assert forall|k: int| 0 <= k < next.0.len() implies resolved_from(all, offered, n, #[trigger] next.0[k]) by {
            if k < st.0.len() {
                assert(next.0[k] == st.0[k]);
                assert(resolved_from(all, offered, m, st.0[k]));
                let i = choose|i: int|
                    0 <= i < m && #[trigger] all[i].0 == st.0[k].0 && all[i].2 == st.0[k].2 && all[i].3 == st.0[k].3
                        && semver_req_matches(all[i].1, st.0[k].1) && offered[i].contains(st.0[k].1);
                assert(all[i].0 == next.0[k].0);
            } else {
                let v = best_match(d.1, vs)->Some_0;
                assert(next.0[k] == (d.0, v, d.2, d.3));
                lemma_parseable_sub(offered[m as int], v);
                assert(all[m as int].0 == next.0[k].0);
            }
        }
    }
}

} // verus!
