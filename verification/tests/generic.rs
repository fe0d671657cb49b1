use cargonode::commands::generic::{build_request, check_request, run_verdict, test_request};
use cargonode::error::Error;

#[test]
fn check_names_its_paths() {
    let r = check_request(&vec![]);
    assert!(r.args.is_empty());
    assert_eq!(r.scope, "all files");
    let r = check_request(&vec!["src".to_string(), "lib".to_string()]);
    assert_eq!(r.args, vec!["src".to_string(), "lib".to_string()]);
    assert_eq!(r.scope, "2 paths");
}

#[test]
fn build_names_its_mode() {
    let r = build_request(true);
    assert_eq!(r.args, vec!["--release".to_string()]);
    assert_eq!(r.scope, "in release mode");
    let r = build_request(false);
    assert!(r.args.is_empty());
    assert_eq!(r.scope, "in debug mode");
}

#[test]
fn test_names_its_pattern() {
    let r = test_request("");
    assert!(r.args.is_empty());
    assert_eq!(r.scope, "all tests");
    let r = test_request("parser");
    assert_eq!(r.args, vec!["parser".to_string()]);
    assert_eq!(r.scope, "tests matching 'parser'");
}

#[test]
fn unsuccessful_run_is_a_failure() {
    assert_eq!(run_verdict("build", true, Some(0)), Ok(()));
    assert_eq!(
        run_verdict("build", false, Some(2)),
        Err(Error::CommandFailed { command: "build".to_string(), code: Some(2) })
    );
    assert_eq!(
        run_verdict("test", false, None),
        Err(Error::CommandFailed { command: "test".to_string(), code: None })
    );
}
