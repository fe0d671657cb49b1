use cargonode::ops::replace::{replace_placeholders, Replacements};
use cargonode::ops::validate::validate_pkg_name;

#[test]
fn test_basic_replacement() {
    let mut rep = Replacements::new();
    rep.add("name", "test-package");
    let result = replace_placeholders("Hello {{name}}", &rep);
    assert_eq!(result, "Hello test-package");
}

#[test]
fn test_empty_template() {
    let rep = Replacements::new();
    let result = replace_placeholders("", &rep);
    assert_eq!(result, "");
}

#[test]
fn test_missing_replacement() {
    let rep = Replacements::new();
    let result = replace_placeholders("Hello {{name}}", &rep);
    assert_eq!(result, "Hello {{MISSING}}");
}

#[test]
fn test_with_valid_pkg_names() {
    let pkg_names = vec![
        "package",
        "my-package",
        "@scope/package",
        "package123",
        "package.name",
    ];

    for name in pkg_names {
        assert!(validate_pkg_name(name).is_ok(), "Should accept {}", name);
    }
}

#[test]
fn test_with_invalid_pkg_names() {
    let binding = "a".repeat(215);
    let pkg_names = vec![
        "",
        " ",
        ".package",
        "_package",
        "Package",
        "@invalid",
        "package..name",
        &binding,
    ];

    for name in pkg_names {
        assert!(validate_pkg_name(name).is_err(), "Should reject {}", name);
    }
}

#[test]
fn test_with_edge_cases() {
    assert!(
        validate_pkg_name("a").is_ok(),
        "Single char should be valid"
    );
    assert!(
        validate_pkg_name(&"a".repeat(214)).is_ok(),
        "Max length should be valid"
    );
    assert!(
        validate_pkg_name("@a/b").is_ok(),
        "Minimal scoped name should be valid"
    );
}
