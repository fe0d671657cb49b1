use cargonode::cmd::validate_working_dir;

#[test]
fn test_validate_working_dir_invalid() {
    let invalid_path = "nonexistent_dir";
    let result = validate_working_dir(invalid_path);
    assert!(result.is_err());
}
