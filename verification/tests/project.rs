use cargonode::project::{validate_dir_name, validate_pkg_name};

#[test]
fn test_validate_dir_name_invalid() {
    let invalid_path = "";
    let result = validate_dir_name(invalid_path);
    assert!(result.is_err());
}

#[test]
fn test_validate_pkg_name_valid() {
    let valid_name = "valid-package-name";
    let result = validate_pkg_name(valid_name);
    assert!(result.is_ok());
}

#[test]
fn test_validate_pkg_name_invalid() {
    let invalid_name = "invalid/package/name";
    let result = validate_pkg_name(invalid_name);
    assert!(result.is_err());
}
