use cargonode::cmd::CommandContext;
use cargonode::cn_core::dependency::{registry_names, resolution_outcome, resolve_dependencies, DependencySpec, RegistryClient};
use cargonode::cn_core::path::validate_and_normalize_path;
use cargonode::cn_core::registry::RegistryResponse;
use cargonode::cn_core::template::{TemplateConfig, TemplateFile};
use cargonode::cn_core::{Error as CoreError, ProjectType};
use cargonode::job::{failure_message, Job, JobConfig, JobFailure};
use cargonode::ops::parser::{parse_env_var, validate_timeout, MAX_TIMEOUT};
use cargonode::outputs::missing_outputs_verdict;
use cargonode::package::replace_content;
use cargonode::utils::{vcs_plan, VcsType};
use cargonode::Error;

fn spec(name: &str, req: &str) -> DependencySpec {
    DependencySpec { name: name.into(), version_req: req.into(), peer: false, optional: false }
}

fn response(name: &str, versions: &[&str]) -> RegistryResponse {
    RegistryResponse {
        id: name.to_string(),
        name: name.to_string(),
        dist_tags: Vec::new(),
        versions: versions.iter().map(|v| v.to_string()).collect(),
    }
}

struct Counting {
    asked: std::cell::RefCell<Vec<String>>,
}

impl RegistryClient for Counting {
    fn get_package_info(&self, name: &str) -> Result<RegistryResponse, CoreError> {
        self.asked.borrow_mut().push(name.to_string());
        Ok(response(name, &["1.0.0", "1.2.0"]))
    }
}

#[test]
fn registry_is_asked_each_package_once_up_to_the_first_invalid_spec() {
    let specs = vec![spec("a", "^1"), spec("b", "^1"), spec("a", "~1.0"), spec("", "^1"), spec("c", "^1")];
    assert_eq!(registry_names(&specs), vec!["a".to_string(), "b".to_string()]);
    let client = Counting { asked: std::cell::RefCell::new(Vec::new()) };
    let err = resolve_dependencies(&specs, &client).unwrap_err();
    assert_eq!(err, CoreError::Template("Dependency name cannot be empty".to_string()));
    assert_eq!(*client.asked.borrow(), vec!["a".to_string(), "b".to_string()]);
}

#[test]
fn no_specifications_resolve_to_nothing() {
    let client = Counting { asked: std::cell::RefCell::new(Vec::new()) };
    let res = resolve_dependencies(&Vec::new(), &client).unwrap();
    assert!(res.resolved.is_empty() && res.unresolved.is_empty() && res.conflicts.is_empty());
    assert!(client.asked.borrow().is_empty());
}

#[test]
fn resolution_outcome_from_answers() {
    let specs = vec![spec("a", "^1"), spec("b", "^2"), spec("a", "^1")];
    let answers = vec![Ok(response("a", &["1.0.0", "1.5.0"])), Ok(response("b", &["2.1.0"]))];
    let res = resolution_outcome(&specs, answers).unwrap();
    let got: Vec<(String, String)> = res.resolved.iter().map(|d| (d.name.clone(), d.version.clone())).collect();
    assert_eq!(
        got,
        vec![
            ("a".to_string(), "1.5.0".to_string()),
            ("b".to_string(), "2.1.0".to_string()),
            ("a".to_string(), "1.5.0".to_string())
        ]
    );
    let failed = resolution_outcome(&specs, vec![Ok(response("a", &["1.0.0"])), Err(CoreError::Network("down".into()))]);
    assert_eq!(failed.unwrap_err(), CoreError::Network("down".into()));
}

#[test]
fn merge_without_lookups_succeeds_and_extends() {
    let mut base = CommandContext {
        executable: "npx".to_string(),
        subcommand: "run".to_string(),
        args: vec!["1".to_string()],
        envs: vec![("A".to_string(), "1".to_string())],
        working_dir: ".".to_string(),
        steps: vec![Job::Check],
    };
    let other = CommandContext {
        executable: String::new(),
        subcommand: String::new(),
        args: vec!["2".to_string()],
        envs: vec![("A".to_string(), "2".to_string())],
        working_dir: String::new(),
        steps: Vec::new(),
    };
    assert!(base.merge(other).is_ok());
    assert_eq!(base.executable, "npx");
    assert_eq!(base.subcommand, "run");
    assert_eq!(base.args, vec!["1".to_string(), "2".to_string()]);
    assert_eq!(base.envs.last(), Some(&("A".to_string(), "2".to_string())));
    assert_eq!(base.steps, vec![Job::Check]);
}

#[test]
fn bad_paths_are_invalid_paths() {
    assert_eq!(
        validate_and_normalize_path("path/with/invalid/*/char", Ok(())),
        Err(CoreError::InvalidPath("Path contains invalid character: '*'".to_string()))
    );
    assert_eq!(
        validate_and_normalize_path("path/with/invalid/:/char", Ok(())),
        Err(CoreError::InvalidPath("Path contains invalid character: ':'".to_string()))
    );
    let long = "a".repeat(5000);
    assert_eq!(
        validate_and_normalize_path(&long, Ok(())),
        Err(CoreError::InvalidPath("Path length exceeds maximum of 4096 characters".to_string()))
    );
    assert_eq!(validate_and_normalize_path("a/./b/../c", Ok(())), Ok("a/c".to_string()));
}

#[test]
fn cycle_and_missing_messages() {
    assert_eq!(
        failure_message(JobFailure::Cycle, Job::Build, &vec![Job::Build, Job::Check]),
        "Cyclic dependency detected: {Build, Check}"
    );
    assert_eq!(
        failure_message(JobFailure::Missing, Job::Test, &vec![Job::Release]),
        "Missing configuration for job: Test"
    );
}

#[test]
fn two_job_cycle_runs_nothing() {
    let ctx = |steps: Vec<Job>| CommandContext {
        executable: "npx".to_string(),
        subcommand: String::new(),
        args: Vec::new(),
        envs: Vec::new(),
        working_dir: ".".to_string(),
        steps,
    };
    let config = JobConfig { cargonode: vec![(Job::Build, ctx(vec![Job::Check])), (Job::Check, ctx(vec![Job::Build]))] };
    let plan = Job::Build.call(&config);
    assert!(plan.runs.is_empty());
    let (kind, job, path) = plan.failure.unwrap();
    assert_eq!(kind, JobFailure::Cycle);
    assert!(failure_message(kind, job, &path).contains("Cyclic dependency detected"));
}

#[test]
fn vcs_plan_decisions() {
    assert_eq!(vcs_plan(VcsType::Git, false, None), (true, true));
    assert_eq!(vcs_plan(VcsType::Git, true, Some(false)), (false, false));
    assert_eq!(vcs_plan(VcsType::Git, true, Some(true)), (false, true));
    assert_eq!(vcs_plan(VcsType::Disabled, false, None), (false, false));
}

#[test]
fn missing_outputs_are_refused() {
    let paths = vec!["/p/a.out".to_string(), "/p/b.out".to_string()];
    assert!(missing_outputs_verdict("tool", &paths, &vec![true, true]).is_ok());
    match missing_outputs_verdict("tool", &paths, &vec![true, false]) {
        Err(Error::OutputVerificationFailed { message, suggestion }) => {
            assert_eq!(message, "Expected output not found: /p/b.out");
            assert_eq!(suggestion, "Check that tool 'tool' writes the outputs it declares.");
        }
        other => panic!("unexpected {:?}", other),
    }
}

#[test]
fn empty_placeholder_is_replaced_as_str_replace_does() {
    assert_eq!(replace_content("ab", "", "-"), "ab".replace("", "-"));
    assert_eq!(replace_content("", "", "x"), "x");
    assert_eq!(replace_content("a node b node", "node", "pkg"), "a pkg b pkg");
}

#[test]
fn rendering_keeps_one_file_per_path() {
    let file = |content: &str| TemplateFile { path: "index.js".into(), content: content.into(), executable: false };
    let template = TemplateConfig {
        name: "t".into(),
        description: String::new(),
        version: "1.0.0".into(),
        project_types: Vec::new(),
        files: vec![("one".into(), file("first")), ("two".into(), file("{{project-name}}"))],
        dependencies: Vec::new(),
        dev_dependencies: Vec::new(),
        scripts: Vec::new(),
    };
    let out = template.render("app", ProjectType::Application).unwrap();
    assert_eq!(out, vec![("index.js".to_string(), "app".to_string())]);
}

#[test]
fn test_config_env_var_format_error() {
    let err = parse_env_var("NOTVALID").unwrap_err();
    assert!(err.contains("Invalid environment variable"));
}

#[test]
fn test_config_with_too_high_timeout() {
    let err = validate_timeout(MAX_TIMEOUT + 100).unwrap_err();
    assert!(err.contains("Failed to validate global scope: Timeout 160 exceeds the maximum of 60 seconds."));
}
