use cargonode::ops::parser::{
    log_settings, parse_env_var, validate_timeout, LogLevel, MAX_TIMEOUT,
};

#[test]
fn environment_variables_split_at_the_first_equals() {
    assert_eq!(parse_env_var("KEY=VALUE"), Ok(("KEY".to_string(), "VALUE".to_string())));
    assert_eq!(parse_env_var("A=b=c"), Ok(("A".to_string(), "b=c".to_string())));
    assert_eq!(parse_env_var("EMPTY="), Ok(("EMPTY".to_string(), String::new())));
    let err = parse_env_var("NOTVALID").unwrap_err();
    assert!(err.contains("Invalid environment variable"));
    assert_eq!(err, "Invalid environment variable: 'NOTVALID'. Must be KEY=VALUE.");
}

#[test]
fn timeouts_above_the_maximum_are_refused() {
    assert_eq!(validate_timeout(MAX_TIMEOUT), Ok(()));
    assert_eq!(validate_timeout(0), Ok(()));
    let err = validate_timeout(MAX_TIMEOUT + 100).unwrap_err();
    assert!(err.contains(
        "Failed to validate global scope: Timeout 160 exceeds the maximum of 60 seconds."
    ));
}

#[test]
fn verbosity_levels() {
    let quiet = log_settings(0);
    assert_eq!(quiet.level, LogLevel::Warn);
    assert!(!quiet.timestamps && !quiet.targets);
    assert_eq!(log_settings(1).level, LogLevel::Debug);
    assert!(log_settings(1).timestamps);
    assert_eq!(log_settings(5).level, LogLevel::Trace);
}
