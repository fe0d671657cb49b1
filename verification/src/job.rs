//! The jobs a project defines.

use vstd::prelude::*;
use vstd::string::*;

use crate::text::{append_str, chars_of, join};

verus! {

/// The jobs a project can run.
#[derive(Debug, Clone, Copy, PartialEq, Eq, Hash, Structural)]
pub enum Job {
    Build,
    Check,
    Fmt,
    Release,
    Run,
    Test,
}

/// The code of `c` in lower case, for ASCII letters.
pub open spec fn ascii_lower(c: char) -> int {
    if 'A' <= c && c <= 'Z' {
        (c as u32) + 32
    } else {
        c as u32 as int
    }
}

/// `a` and `b` are equal ignoring the case of ASCII letters.
pub open spec fn eq_ignore_ascii_case(a: Seq<char>, b: Seq<char>) -> bool {
    a.len() == b.len() && forall|i: int| 0 <= i < a.len() ==> #[trigger] ascii_lower(a[i]) == ascii_lower(b[i])
}

/// The name of a job.
pub open spec fn job_name(j: Job) -> Seq<char> {
    match j {
        Job::Build => "build"@,
        Job::Check => "check"@,
        Job::Fmt => "fmt"@,
        Job::Release => "release"@,
        Job::Run => "run"@,
        Job::Test => "test"@,
    }
}

/// The job a configuration names with `s`, ignoring ASCII case.
pub open spec fn job_named(s: Seq<char>) -> Option<Job> {
    if eq_ignore_ascii_case(s, "build"@) {
        Some(Job::Build)
    } else if eq_ignore_ascii_case(s, "check"@) {
        Some(Job::Check)
    } else if eq_ignore_ascii_case(s, "fmt"@) {
        Some(Job::Fmt)
    } else if eq_ignore_ascii_case(s, "release"@) {
        Some(Job::Release)
    } else if eq_ignore_ascii_case(s, "run"@) {
        Some(Job::Run)
    } else if eq_ignore_ascii_case(s, "test"@) {
        Some(Job::Test)
    } else {
        None
    }
}

fn lower_exec(c: char) -> (r: u32)
    ensures
        r == ascii_lower(c),
{
    if 'A' <= c && c <= 'Z' {
        assert((c as u32) <= 90);
        (c as u32) + 32
    } else {
        c as u32
    }
}

fn eq_ignore_case_exec(a: &Vec<char>, b: &str) -> (r: bool)
    ensures
        r == eq_ignore_ascii_case(a@, b@),
{
    let bv = chars_of(b);
    if a.len() != bv.len() {
        return false;
    }
    let mut i: usize = 0;
    while i < a.len()
        invariant
            i <= a@.len(),
            a@.len() == bv@.len(),
            bv@ == b@,
            forall|k: int| 0 <= k < i ==> #[trigger] ascii_lower(a@[k]) == ascii_lower(bv@[k]),
        decreases a@.len() - i,
    {
        if lower_exec(a[i]) != lower_exec(bv[i]) {
            return false;
        }
        i = i + 1;
    }
    true
}

impl Job {
    /// The job's name.
    pub fn name(&self) -> (r: &'static str)
        ensures
            r@ == job_name(*self),
    {
        match self {
            Job::Build => "build",
            Job::Check => "check",
            Job::Fmt => "fmt",
            Job::Release => "release",
            Job::Run => "run",
            Job::Test => "test",
        }
    }

    /// The job named `s`, ignoring ASCII case, or `Unknown job: <s>`.
    pub fn from_name(s: &str) -> (r: Result<Job, String>)
        ensures
            match job_named(s@) {
                Some(j) => r == Ok::<Job, String>(j),
                None => (r matches Err(m) && m@ == "Unknown job: "@ + s@),
            },
    {
        let v = chars_of(s);
        if eq_ignore_case_exec(&v, "build") {
            Ok(Job::Build)
        } else if eq_ignore_case_exec(&v, "check") {
            Ok(Job::Check)
        } else if eq_ignore_case_exec(&v, "fmt") {
            Ok(Job::Fmt)
        } else if eq_ignore_case_exec(&v, "release") {
            Ok(Job::Release)
        } else if eq_ignore_case_exec(&v, "run") {
            Ok(Job::Run)
        } else if eq_ignore_case_exec(&v, "test") {
            Ok(Job::Test)
        } else {
            let mut m = String::from_str("Unknown job: ");
            append_str(&mut m, s);
            Err(m)
        }
    }
}


/// The command contexts of the jobs, a later entry overriding an earlier
/// one for the same job.
#[derive(Debug, Clone)]
pub struct JobConfig {
    pub cargonode: Vec<(Job, crate::cmd::CommandContext)>,
}

/// The context `cfg` holds for `job`: its last entry for it.
pub open spec fn job_context(cfg: Seq<(Job, crate::cmd::CommandContext)>, job: Job) -> Option<crate::cmd::CommandContext>
    decreases cfg.len(),
{
    if cfg.len() == 0 {
        None
    } else if cfg.last().0 == job {
        Some(cfg.last().1)
    } else {
        job_context(cfg.drop_last(), job)
    }
}

/// Why a job cannot be run.
#[derive(Debug, Clone, Copy, PartialEq, Eq, Structural)]
pub enum JobFailure {
    /// The job is reached again from its own steps.
    Cycle,
    /// No context is configured for the job.
    Missing,
}

/// The runs of a job and of its steps, each with the jobs it was reached
/// through, and the failure that stops the traversal, if any.
pub type JobTrace = (Seq<(Job, Seq<Job>)>, Option<(JobFailure, Job, Seq<Job>)>);

/// Running `job`, reached through the jobs `path`, runs its steps first
/// (each with its own steps first), then the job itself. A job reached
/// again through itself is a cycle; a job without a context is missing.
/// The traversal stops at the first failure; the runs made before it
/// stand. (Six jobs exist, so a path of distinct jobs never grows past
/// six; the bound only makes that visible to the termination check.)
pub open spec fn visit(cfg: Seq<(Job, crate::cmd::CommandContext)>, path: Seq<Job>, job: Job) -> JobTrace
    decreases 7 - path.len(), 0int, 0int,
{
    if path.contains(job) || path.len() >= 6 {
        (Seq::empty(), Some((JobFailure::Cycle, job, path)))
    } else {
        match job_context(cfg, job) {
            None => (Seq::empty(), Some((JobFailure::Missing, job, path))),
            Some(ctx) => {
                let inner = visit_steps(cfg, path.push(job), ctx.steps@, 0);
                if inner.1 is Some {
                    inner
                } else {
                    (inner.0.push((job, path)), None)
                }
            },
        }
    }
}

/// The steps `steps[i..]` of a job, run in order, each reached through
/// `path`.
pub open spec fn visit_steps(cfg: Seq<(Job, crate::cmd::CommandContext)>, path: Seq<Job>, steps: Seq<Job>, i: int) -> JobTrace
    decreases 7 - path.len(), 1int, steps.len() - i,
{
    if i < 0 || i >= steps.len() || path.len() > 6 {
        (Seq::empty(), None)
    } else {
        let first = visit(cfg, path, steps[i]);
        if first.1 is Some {
            first
        } else {
            let rest = visit_steps(cfg, path, steps, i + 1);
            (first.0 + rest.0, rest.1)
        }
    }
}

/// The plan for running a job: the runs in order, each with the jobs it
/// was reached through, and the failure that ends it, if any.
#[derive(Debug, Clone)]
pub struct JobPlan {
    pub runs: Vec<(Job, Vec<Job>)>,
    pub failure: Option<(JobFailure, Job, Vec<Job>)>,
}

/// A plan as plain values.
pub open spec fn plan_view(p: JobPlan) -> JobTrace {
    (
        Seq::new(p.runs@.len(), |i: int| (p.runs@[i].0, p.runs@[i].1@)),
        match p.failure {
            Some((k, j, path)) => Some((k, j, path@)),
            None => None,
        },
    )
}

fn find_context(cfg: &Vec<(Job, crate::cmd::CommandContext)>, job: Job) -> (r: Option<&crate::cmd::CommandContext>)
    ensures
        match job_context(cfg@, job) {
            None => r is None,
            Some(c) => r == Some(&c),
        },
{
    let mut i = cfg.len();
    assert(cfg@.subrange(0, i as int) =~= cfg@);
    while i > 0
        invariant
            i <= cfg@.len(),
            job_context(cfg@.subrange(0, i as int), job) == job_context(cfg@, job),
        decreases i,
    {
        assert(cfg@.subrange(0, i as int).drop_last() =~= cfg@.subrange(0, i - 1));
        if cfg[i - 1].0 == job {
            return Some(&cfg[i - 1].1);
        }
        i = i - 1;
    }
    None
}

fn contains_job(path: &Vec<Job>, job: Job) -> (b: bool)
    ensures
        b == path@.contains(job),
{
    let mut i: usize = 0;
    while i < path.len()
        invariant
            i <= path@.len(),
            forall|k: int| 0 <= k < i ==> path@[k] != job,
        decreases path@.len() - i,
    {
        if path[i] == job {
            assert(path@[i as int] == job);
            return true;
        }
        i = i + 1;
    }
    false
}

fn copy_jobs(v: &Vec<Job>) -> (r: Vec<Job>)
    ensures
        r@ == v@,
{
    let mut r: Vec<Job> = Vec::new();
    let mut i: usize = 0;
    while i < v.len()
        invariant
            i <= v@.len(),
            r@ == v@.subrange(0, i as int),
        decreases v@.len() - i,
    {
        r.push(v[i]);
        i = i + 1;
        assert(r@ =~= v@.subrange(0, i as int));
    }
    assert(r@ =~= v@);
    r
}

fn visit_exec(cfg: &Vec<(Job, crate::cmd::CommandContext)>, path: &Vec<Job>, job: Job) -> (r: JobPlan)
    ensures
        plan_view(r) == visit(cfg@, path@, job),
    decreases 7 - path@.len(), 0int, 0int,
{
    if contains_job(path, job) || path.len() >= 6 {
        return JobPlan { runs: Vec::new(), failure: Some((JobFailure::Cycle, job, copy_jobs(path))) };
    }
    match find_context(cfg, job) {
        None => JobPlan { runs: Vec::new(), failure: Some((JobFailure::Missing, job, copy_jobs(path))) },
        Some(ctx) => {
            let mut deeper = copy_jobs(path);
            deeper.push(job);
            let mut inner = visit_steps_exec(cfg, &deeper, &ctx.steps, 0);
            if inner.failure.is_some() {
                inner
            } else {
                let ghost before = plan_view(inner).0;
                inner.runs.push((job, copy_jobs(path)));
                assert(plan_view(inner).0 =~= before.push((job, path@)));
                inner
            }
        },
    }
}

fn visit_steps_exec(cfg: &Vec<(Job, crate::cmd::CommandContext)>, path: &Vec<Job>, steps: &Vec<Job>, i: usize) -> (r: JobPlan)
    requires
        i <= steps@.len(),
    ensures
        plan_view(r) == visit_steps(cfg@, path@, steps@, i as int),
    decreases 7 - path@.len(), 1int, steps@.len() - i,
{
    if i >= steps.len() || path.len() > 6 {
        return JobPlan { runs: Vec::new(), failure: None };
    }
    let first = visit_exec(cfg, path, steps[i]);
    if first.failure.is_some() {
        return first;
    }
    let rest = visit_steps_exec(cfg, path, steps, i + 1);
    let mut runs = first.runs;
    let ghost a = plan_view(first).0;
    let ghost b = plan_view(rest).0;
    let mut more = rest.runs;
    runs.append(&mut more);
    let r = JobPlan { runs, failure: rest.failure };
    assert(plan_view(r).0 =~= a + b);
    r
}

impl Job {
    /// The plan for running this job with `config`: its steps first, each
    /// with its own steps first, then the job itself; the traversal stops
    /// at a job reached again through itself, or at one without a
    /// context. The caller runs the planned commands in order, stopping at
    /// the first that fails.
    pub fn call(&self, config: &JobConfig) -> (r: JobPlan)
        ensures
            plan_view(r) == visit(config.cargonode@, Seq::empty(), *self),
    {
        let path: Vec<Job> = Vec::new();
        assert(path@ =~= Seq::<Job>::empty());
        visit_exec(&config.cargonode, &path, *self)
    }

    /// The context `config` holds for this job, if any.
    pub fn context<'a>(&self, config: &'a JobConfig) -> (r: Option<&'a crate::cmd::CommandContext>)
        ensures
            match job_context(config.cargonode@, *self) {
                None => r is None,
                Some(c) => r == Some(&c),
            },
    {
        find_context(&config.cargonode, *self)
    }
}

/// How `Debug` names a job.
pub open spec fn job_debug_name(j: Job) -> Seq<char> {
    match j {
        Job::Build => "Build"@,
        Job::Check => "Check"@,
        Job::Fmt => "Fmt"@,
        Job::Release => "Release"@,
        Job::Run => "Run"@,
        Job::Test => "Test"@,
    }
}

fn job_debug_name_exec(j: Job) -> (r: &'static str)
    ensures
        r@ == job_debug_name(j),
{
    match j {
        Job::Build => "Build",
        Job::Check => "Check",
        Job::Fmt => "Fmt",
        Job::Release => "Release",
        Job::Run => "Run",
        Job::Test => "Test",
    }
}

/// The message of the failure `kind` at `job`, reached through `path`: a
/// cycle names the jobs in progress, which `path` holds, in the order they
/// were entered; a missing configuration names the job.
pub open spec fn failure_text(kind: JobFailure, job: Job, path: Seq<Job>) -> Seq<char> {
    match kind {
        JobFailure::Cycle => "Cyclic dependency detected: {"@ + join(
            path.map_values(|j: Job| job_debug_name(j)),
            ", "@,
        ) + "}"@,
        JobFailure::Missing => "Missing configuration for job: "@ + job_debug_name(job),
    }
}

/// The message of a failure of a plan (see `failure_text`).
pub fn failure_message(kind: JobFailure, job: Job, path: &Vec<Job>) -> (r: String)
    ensures
        r@ == failure_text(kind, job, path@),
{
    match kind {
        JobFailure::Missing => {
            let mut r = String::from_str("Missing configuration for job: ");
            append_str(&mut r, job_debug_name_exec(job));
            r
        },
        JobFailure::Cycle => {
            let ghost names = path@.map_values(|j: Job| job_debug_name(j));
            let mut body = String::new();
            let mut i: usize = 0;
            assert(names.subrange(0, 0) =~= Seq::<Seq<char>>::empty());
            while i < path.len()
                invariant
                    i <= path@.len(),
                    names == path@.map_values(|j: Job| job_debug_name(j)),
                    body@ == join(names.subrange(0, i as int), ", "@),
                decreases path@.len() - i,
            {
                let ghost done = names.subrange(0, i as int);
                let piece = job_debug_name_exec(path[i]);
                assert(piece@ == names[i as int]);
                if i > 0 {
                    append_str(&mut body, ", ");
                    proof {
                        crate::text::lemma_join_push(done, piece@, ", "@);
                    }
                } else {
                    assert(names.subrange(0, 1) =~= seq![piece@]);
                }
                append_str(&mut body, piece);
                assert(names.subrange(0, i + 1) =~= done.push(names[i as int]));
                i = i + 1;
            }
            assert(names.subrange(0, path@.len() as int) =~= names);
            let mut r = String::from_str("Cyclic dependency detected: {");
            append_str(&mut r, body.as_str());
            append_str(&mut r, "}");
            r
        },
    }
}

/// `b` is one of the steps of `a` in `cfg`.
pub open spec fn is_step(cfg: Seq<(Job, crate::cmd::CommandContext)>, a: Job, b: Job) -> bool {
    match job_context(cfg, a) {
        Some(ctx) => ctx.steps@.contains(b),
        None => false,
    }
}

/// Each job of `c` is a step of the one before it.
pub open spec fn is_chain(cfg: Seq<(Job, crate::cmd::CommandContext)>, c: Seq<Job>) -> bool {
    forall|i: int| 0 <= i < c.len() - 1 ==> #[trigger] is_step(cfg, c[i], c[i + 1])
}

/// Once steps have all been run, each of them was run to completion.
proof fn lemma_steps_completed(
    cfg: Seq<(Job, crate::cmd::CommandContext)>,
    path: Seq<Job>,
    steps: Seq<Job>,
    i: int,
    k: int,
)
    requires
        0 <= i <= k < steps.len(),
        path.len() <= 6,
        visit_steps(cfg, path, steps, i).1 is None,
    ensures
        visit(cfg, path, steps[k]).1 is None,
    decreases k - i,
{
    if i < k {
        lemma_steps_completed(cfg, path, steps, i + 1, k);
    }
}

/// A job run to completion never leads back, through its steps, to itself
/// or to a job it was reached through.
proof fn lemma_completed_no_return(cfg: Seq<(Job, crate::cmd::CommandContext)>, path: Seq<Job>, c: Seq<Job>)
    requires
        c.len() >= 1,
        is_chain(cfg, c),
        visit(cfg, path, c[0]).1 is None,
    ensures
        !path.contains(c.last()),
        c.len() >= 2 ==> c.last() != c[0],
    decreases c.len(),
{
    let x = c[0];
    assert(!path.contains(x) && path.len() < 6);
    if c.len() >= 2 {
        assert(is_step(cfg, c[0], c[1]));
        let ctx = job_context(cfg, x)->Some_0;
        let k = choose|k: int| 0 <= k < ctx.steps@.len() && ctx.steps@[k] == c[1];
        let deeper = path.push(x);
        lemma_steps_completed(cfg, deeper, ctx.steps@, 0, k);
        let rest = c.skip(1);
        assert forall|i: int| 0 <= i < rest.len() - 1 implies #[trigger] is_step(cfg, rest[i], rest[i + 1]) by {
            assert(is_step(cfg, c[i + 1], c[(i + 1) + 1]));
        }
        assert(rest[0] == c[1]);
        lemma_completed_no_return(cfg, deeper, rest);
        assert(rest.last() == c.last());
        if path.contains(c.last()) {
            let t = choose|t: int| 0 <= t < path.len() && path[t] == c.last();
            assert(deeper[t] == c.last());
        }
        assert(deeper[path.len() as int] == x);
    }
}

/// Every run of a plan is of a job run to completion, through the jobs it
/// was reached through.
proof fn lemma_runs_completed(cfg: Seq<(Job, crate::cmd::CommandContext)>, path: Seq<Job>, job: Job)
    ensures
        forall|n: int| 0 <= n < visit(cfg, path, job).0.len() ==> (#[trigger] visit(
            cfg,
            visit(cfg, path, job).0[n].1,
            visit(cfg, path, job).0[n].0,
        )).1 is None,
    decreases 7 - path.len(), 0int, 0int,
{
    if !(path.contains(job) || path.len() >= 6) {
        if let Some(ctx) = job_context(cfg, job) {
            lemma_steps_runs_completed(cfg, path.push(job), ctx.steps@, 0);
            let inner = visit_steps(cfg, path.push(job), ctx.steps@, 0);
            if inner.1 is None {
                let runs = visit(cfg, path, job).0;
                assert forall|n: int| 0 <= n < runs.len() implies (#[trigger] visit(
                    cfg,
                    runs[n].1,
                    runs[n].0,
                )).1 is None by {
                    if n < inner.0.len() {
                        assert(runs[n] == inner.0[n]);
                    } else {
                        assert(runs[n] == (job, path));
                    }
                }
            }
        }
    }
}

proof fn lemma_steps_runs_completed(cfg: Seq<(Job, crate::cmd::CommandContext)>, path: Seq<Job>, steps: Seq<Job>, i: int)
    ensures
        forall|n: int| 0 <= n < visit_steps(cfg, path, steps, i).0.len() ==> (#[trigger] visit(
            cfg,
            visit_steps(cfg, path, steps, i).0[n].1,
            visit_steps(cfg, path, steps, i).0[n].0,
        )).1 is None,
    decreases 7 - path.len(), 1int, steps.len() - i,
{
    if !(i < 0 || i >= steps.len() || path.len() > 6) {
        lemma_runs_completed(cfg, path, steps[i]);
        let first = visit(cfg, path, steps[i]);
        if first.1 is None {
            lemma_steps_runs_completed(cfg, path, steps, i + 1);
            let rest = visit_steps(cfg, path, steps, i + 1);
            let runs = visit_steps(cfg, path, steps, i).0;
            assert(runs == first.0 + rest.0);
            assert forall|n: int| 0 <= n < runs.len() implies (#[trigger] visit(cfg, runs[n].1, runs[n].0)).1 is None by {
                if n < first.0.len() {
                    assert(runs[n] == first.0[n]);
                } else {
                    assert(runs[n] == rest.0[n - first.0.len()]);
                }
            }
        }
    }
}

/// A cycle is found with the jobs in progress forming a chain of steps,
/// each once, that leads to the job reached again.
proof fn lemma_cycle_shape(cfg: Seq<(Job, crate::cmd::CommandContext)>, path: Seq<Job>, job: Job)
    requires
        is_chain(cfg, path.push(job)),
        path.no_duplicates(),
    ensures
        visit(cfg, path, job).1 matches Some((kind, j, p)) ==> (kind == JobFailure::Cycle ==> (is_chain(
            cfg,
            p.push(j),
        ) && p.no_duplicates() && (p.contains(j) || p.len() >= 6))),
    decreases 7 - path.len(), 0int, 0int,
{
    if !(path.contains(job) || path.len() >= 6) {
        if let Some(ctx) = job_context(cfg, job) {
            let deeper = path.push(job);
            assert forall|a: int, b: int| 0 <= a < deeper.len() && 0 <= b < deeper.len() && a != b implies deeper[a]
                != deeper[b] by {
                if a < path.len() && b < path.len() {
                } else if a < path.len() {
                    assert(path[a] == deeper[a]);
                } else {
                    assert(path[b] == deeper[b]);
                }
            }
            lemma_steps_cycle_shape(cfg, deeper, ctx.steps@, 0);
        }
    }
}

proof fn lemma_steps_cycle_shape(cfg: Seq<(Job, crate::cmd::CommandContext)>, path: Seq<Job>, steps: Seq<Job>, i: int)
    requires
        path.len() >= 1,
        is_chain(cfg, path),
        path.no_duplicates(),
        job_context(cfg, path.last()) matches Some(ctx) && ctx.steps@ == steps,
    ensures
        visit_steps(cfg, path, steps, i).1 matches Some((kind, j, p)) ==> (kind == JobFailure::Cycle ==> (
        is_chain(cfg, p.push(j)) && p.no_duplicates() && (p.contains(j) || p.len() >= 6))),
    decreases 7 - path.len(), 1int, steps.len() - i,
{
    if !(i < 0 || i >= steps.len() || path.len() > 6) {
        let s = steps[i];
        let longer = path.push(s);
        assert(is_step(cfg, path.last(), s));
        assert forall|k: int| 0 <= k < longer.len() - 1 implies #[trigger] is_step(cfg, longer[k], longer[k + 1]) by {
            if k < path.len() - 1 {
                assert(is_step(cfg, path[k], path[k + 1]));
            } else {
                assert(longer[k] == path.last());
            }
        }
        lemma_cycle_shape(cfg, path, s);
        if visit(cfg, path, s).1 is None {
            lemma_steps_cycle_shape(cfg, path, steps, i + 1);
        }
    }
}

/// Six distinct jobs are all the jobs.
proof fn lemma_six_jobs(p: Seq<Job>, j: Job)
    requires
        p.no_duplicates(),
        p.len() >= 6,
    ensures
        p.contains(j),
{
    if !p.contains(j) {
        let all = set![Job::Build, Job::Check, Job::Fmt, Job::Release, Job::Run, Job::Test];
        let others = all.remove(j);
        assert(all.len() == 6);
        assert(others.len() == 5);
        assert(p.to_set().subset_of(others)) by {
            assert forall|x: Job| #[trigger] p.to_set().contains(x) implies others.contains(x) by {
                assert(p.contains(x));
                assert(x != j);
                match x {
                    Job::Build => {},
                    Job::Check => {},
                    Job::Fmt => {},
                    Job::Release => {},
                    Job::Run => {},
                    Job::Test => {},
                }
            }
        }
        vstd::set_lib::lemma_len_subset(p.to_set(), others);
        p.unique_seq_to_set();
    }
}

/// When running a job meets a cycle, the job reached again is one of the
/// jobs in progress, and no job on the cycle (from that job's place among
/// the jobs in progress onward) has been run: the cycle is reported
/// before any command of its jobs.
pub proof fn law_cycle_jobs_never_run(cfg: Seq<(Job, crate::cmd::CommandContext)>, job: Job)
    requires
        visit(cfg, Seq::empty(), job).1 matches Some((kind, _, _)) && kind == JobFailure::Cycle,
    ensures
        visit(cfg, Seq::empty(), job).1 matches Some((_, j, p)) && p.contains(j) && forall|k: int, t: int, n: int|
            0 <= k <= t < p.len() && #[trigger] p[k] == j && 0 <= n < visit(cfg, Seq::empty(), job).0.len() ==> #[trigger] visit(
                cfg,
                Seq::empty(),
                job,
            ).0[n].0 != #[trigger] p[t],
{
    let empty = Seq::<Job>::empty();
    assert(is_chain(cfg, empty.push(job)));
    assert(empty.no_duplicates());
    lemma_cycle_shape(cfg, empty, job);
    lemma_runs_completed(cfg, empty, job);
    let (runs, f) = visit(cfg, empty, job);
    let (kind, j, p) = f->Some_0;
    if !p.contains(j) {
        lemma_six_jobs(p, j);
    }
    assert forall|k: int, t: int, n: int| 0 <= k <= t < p.len() && #[trigger] p[k] == j && 0 <= n < runs.len() implies #[trigger] visit(
        cfg,
        Seq::empty(),
        job,
    ).0[n].0 != #[trigger] p[t] by {
        if runs[n].0 == p[t] {
            let c = p.subrange(t, p.len() as int) + p.subrange(k, t + 1);
            let pj = p.push(j);
            assert forall|i: int| 0 <= i < c.len() - 1 implies #[trigger] is_step(cfg, c[i], c[i + 1]) by {
                let a = p.len() - t;
                if i < a - 1 {
                    assert(c[i] == p[t + i] && c[i + 1] == p[t + i + 1]);
                    assert(is_step(cfg, pj[t + i], pj[t + i + 1]));
                } else if i == a - 1 {
                    assert(c[i] == p[p.len() - 1] && c[i + 1] == p[k]);
                    assert(is_step(cfg, pj[p.len() - 1], pj[p.len() as int]));
                } else {
                    assert(c[i] == p[k + (i - a)] && c[i + 1] == p[k + (i - a) + 1]);
                    assert(is_step(cfg, pj[k + (i - a)], pj[k + (i - a) + 1]));
                }
            }
            assert(c[0] == p[t]);
            assert(c.last() == p[t]);
            lemma_completed_no_return(cfg, runs[n].1, c);
        }
    }
}

/// A job that is one of its own steps is refused as a cycle, after its
/// own context is found and before anything runs.
pub proof fn law_self_step_is_cycle(cfg: Seq<(Job, crate::cmd::CommandContext)>, job: Job, ctx: crate::cmd::CommandContext)
    requires
        job_context(cfg, job) == Some(ctx),
        ctx.steps@.len() > 0,
        ctx.steps@[0] == job,
    ensures
        visit(cfg, Seq::empty(), job).1 == Some((JobFailure::Cycle, job, seq![job])),
        visit(cfg, Seq::empty(), job).0.len() == 0,
{
    let path = Seq::<Job>::empty().push(job);
    assert(path =~= seq![job]);
    assert(path[0] == job);
    assert(path.contains(job));
    assert(visit(cfg, path, job) == (Seq::<(Job, Seq<Job>)>::empty(), Some((JobFailure::Cycle, job, path))));
    assert(visit_steps(cfg, path, ctx.steps@, 0).1 is Some);
}

/// A job that has a context and no steps is run alone.
pub proof fn law_job_without_steps(cfg: Seq<(Job, crate::cmd::CommandContext)>, job: Job, ctx: crate::cmd::CommandContext)
    requires
        job_context(cfg, job) == Some(ctx),
        ctx.steps@.len() == 0,
    ensures
        visit(cfg, Seq::empty(), job) == (seq![(job, Seq::<Job>::empty())], None::<(JobFailure, Job, Seq<Job>)>),
{
    let path = Seq::<Job>::empty();
    assert(!path.contains(job));
    assert(visit_steps(cfg, path.push(job), ctx.steps@, 0) == (Seq::<(Job, Seq<Job>)>::empty(), None::<(JobFailure, Job, Seq<Job>)>));
    assert(Seq::<(Job, Seq<Job>)>::empty().push((job, path)) =~= seq![(job, Seq::<Job>::empty())]);
}

} // verus!
