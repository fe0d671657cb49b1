use cargonode::cargo_node::exec::{signed_decimal_string, Error as RunError};
use cargonode::integration::{biome, release_it, tsup, vitest};

fn strings(v: &[&str]) -> Vec<String> {
    v.iter().map(|s| s.to_string()).collect()
}

#[test]
fn biome_format_runs_npx_biome_format() {
    let c = biome::format("/work", strings(&["--write", "src"]));
    assert_eq!(c.work_dir, "/work");
    assert_eq!(c.program, "npx");
    assert_eq!(c.args, strings(&["biome", "format", "--write", "src"]));
    assert!(c.env_vars.is_none());
}

#[test]
fn biome_check_runs_npx_biome_check() {
    let c = biome::check(".", Vec::new());
    assert_eq!(c.args, strings(&["biome", "check"]));
}

#[test]
fn vitest_test_runs_once() {
    let c = vitest::test("proj", strings(&["--coverage"]));
    assert_eq!(c.work_dir, "proj");
    assert_eq!(c.args, strings(&["vitest", "run", "--coverage"]));
}

#[test]
fn tsup_build_checks_then_bundles() {
    let runs = tsup::build("proj", strings(&["--minify"]));
    assert_eq!(runs.len(), 2);
    assert_eq!(runs[0].args, strings(&["biome", "check"]));
    assert_eq!(runs[1].args, strings(&["tsup", "--minify"]));
    assert!(runs.iter().all(|c| c.work_dir == "proj" && c.program == "npx"));
}

#[test]
fn release_builds_then_releases() {
    let runs = release_it::release("proj", strings(&["--ci"]));
    assert_eq!(runs.len(), 3);
    assert_eq!(runs[0].args, strings(&["biome", "check"]));
    assert_eq!(runs[1].args, strings(&["tsup"]));
    assert_eq!(runs[2].args, strings(&["release-it", "--ci"]));
}

#[test]
fn run_error_messages() {
    assert_eq!(RunError::Timeout.message(), "Command timed out");
    assert_eq!(
        RunError::FailedToExecute("not found".to_string()).message(),
        "Failed to execute command: not found"
    );
    assert_eq!(
        RunError::FailedToReadOutput("invalid utf-8".to_string()).message(),
        "Failed to read command output: invalid utf-8"
    );
    let failed = RunError::ExitFailure {
        stdout: "out".to_string(),
        stderr: "err".to_string(),
        exit_status: Some(2),
    };
    assert_eq!(failed.message(), "Command failed with status: 2\nstdout:\nout\nstderr:\nerr");
    let killed = RunError::ExitFailure { stdout: String::new(), stderr: String::new(), exit_status: None };
    assert_eq!(killed.message(), "Command failed\nstdout:\n\nstderr:\n");
}

#[test]
fn signed_decimal_text() {
    assert_eq!(signed_decimal_string(0), "0");
    assert_eq!(signed_decimal_string(127), "127");
    assert_eq!(signed_decimal_string(-1), "-1");
    assert_eq!(signed_decimal_string(i32::MIN), "-2147483648");
}

#[test]
fn biome_outcome_names_the_operation() {
    assert_eq!(biome::outcome("format", Ok("done".to_string())), Ok("done".to_string()));
    let e = biome::outcome("format", Err(RunError::Timeout)).unwrap_err();
    assert_eq!(e, biome::Error::BiomeError(RunError::Timeout, "format".to_string()));
    assert_eq!(e.message(), "Failed to format: Command timed out");
}

#[test]
fn vitest_outcome_reports_failure() {
    let e = vitest::outcome(Err(RunError::Timeout)).unwrap_err();
    assert_eq!(e.message(), "Failed to execute vitest: Command timed out");
    assert_eq!(vitest::outcome(Ok("ok".to_string())), Ok("ok".to_string()));
}

#[test]
fn build_outcome_reports_first_failure() {
    let check_failed = tsup::build_outcome(vec![Err(RunError::Timeout)]).unwrap_err();
    assert_eq!(check_failed.message(), "Failed to check: Command timed out");
    let bundle_failed =
        tsup::build_outcome(vec![Ok("checked".to_string()), Err(RunError::Timeout)]).unwrap_err();
    assert_eq!(bundle_failed, tsup::Error::TsupError(RunError::Timeout));
    assert_eq!(bundle_failed.message(), "Failed to execute tsup: Command timed out");
    let built = tsup::build_outcome(vec![Ok("checked".to_string()), Ok("bundled".to_string())]);
    assert_eq!(built, Ok("bundled".to_string()));
}

#[test]
fn release_outcome_reports_first_failure() {
    let bundle_failed =
        release_it::release_outcome(vec![Ok("a".to_string()), Err(RunError::Timeout)]).unwrap_err();
    assert_eq!(bundle_failed, release_it::Error::TsupError(tsup::Error::TsupError(RunError::Timeout)));
    assert_eq!(bundle_failed.message(), "Failed to execute tsup: Command timed out");
    let publish_failed = release_it::release_outcome(vec![
        Ok("a".to_string()),
        Ok("b".to_string()),
        Err(RunError::FailedToExecute("gone".to_string())),
    ])
    .unwrap_err();
    assert_eq!(publish_failed.message(), "Failed to execute command: gone");
    let released = release_it::release_outcome(vec![
        Ok("a".to_string()),
        Ok("b".to_string()),
        Ok("c".to_string()),
    ]);
    assert_eq!(released, Ok("c".to_string()));
}
