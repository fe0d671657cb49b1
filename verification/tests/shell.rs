use cargonode::cmd::{exit_verdict, from_default, run_description};
use cargonode::job::Job;
use cargonode::shell::{
    confirms, error_line, note_line, prompt_line, shell_line, status_column, status_line,
    warn_line,
};

#[test]
fn status_words_are_right_aligned() {
    assert_eq!(status_column("Running", true), "     Running");
    assert_eq!(status_column("Initializing..", true), "Initializing..");
    assert_eq!(status_column("error", false), "error:");
    assert_eq!(status_line("Running", "npm install"), "     Running npm install");
    assert_eq!(error_line("boom"), "error: boom");
    assert_eq!(warn_line("careful"), "warning: careful");
    assert_eq!(note_line("fyi"), "note: fyi");
    assert_eq!(shell_line("Checking", "x", true), "    Checking x");
}

#[test]
fn yes_answers() {
    assert_eq!(prompt_line("Continue?"), "Continue? [y/N] ");
    assert!(confirms("y"));
    assert!(confirms(" Y \n"));
    assert!(!confirms("yes"));
    assert!(!confirms(""));
    assert!(!confirms("n\n"));
    assert!(!confirms("y y"));
}

#[test]
fn from_default_fills_the_context() {
    let ctx = from_default("npx", "tsup", &["src/main.js"], None, "/here", vec![Job::Check]);
    assert_eq!(ctx.executable, "npx");
    assert_eq!(ctx.subcommand, "tsup");
    assert_eq!(ctx.args, vec!["src/main.js".to_string()]);
    assert_eq!(ctx.working_dir, "/here");
    assert_eq!(ctx.steps, vec![Job::Check]);
    let ctx = from_default("npm", "install", &["--save", "x"], Some("/work"), "/here", vec![]);
    assert_eq!(ctx.executable, "npm");
    assert_eq!(ctx.subcommand, "install");
    assert_eq!(ctx.args, vec!["--save".to_string(), "x".to_string()]);
    assert_eq!(ctx.working_dir, "/work");
    assert!(ctx.envs.is_empty());
    assert!(ctx.steps.is_empty());
    let ctx = from_default("npx", "vitest", &[], None, "/here", vec![]);
    assert_eq!(ctx.working_dir, "/here");
    assert_eq!(run_description(&ctx), "npx vitest ");
}

#[test]
fn run_lines_and_exit_codes() {
    let ctx = from_default("npm", "run", &["build", "--watch"], Some("/w"), "/w", vec![]);
    assert_eq!(run_description(&ctx), "npm run build --watch");
    assert_eq!(exit_verdict(true, Some(0)), Ok(()));
    assert_eq!(exit_verdict(false, Some(3)), Err(3));
    assert_eq!(exit_verdict(false, None), Err(1));
}
