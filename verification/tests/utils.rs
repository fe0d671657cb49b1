use cargonode::template::{GITIGNORE_CONTENT, LIB_JS_CONTENT, MAIN_JS_CONTENT};
use cargonode::utils::{create_project_config, validate_package_name, VcsConfig, VcsType};

#[test]
fn test_validate_package_name_valid() {
    let valid_names = [
        "valid-package",
        "@scope/package",
        "package.name",
        "@org/pkg-name",
        "my-package",
        "my.package",
        "my_package",
        "@scope/my.package",
        "@scope/my-package",
        "@scope/my_package",
        "ab1",
        "@abc/def2",
    ];

    for name in valid_names {
        assert!(
            validate_package_name(name).is_ok(),
            "Should accept {}",
            name
        );
    }
}

#[test]
fn test_validate_package_name_invalid() {
    let invalid_names = [
        "",
        "UPPERCASE",
        ".start-dot",
        "_start-underscore",
        "end.",
        "end_",
        "double..dot",
        "double__underscore",
        "double--dash",
        "@/package",
        "@scope/",
        "/package",
        "@scope//pkg",
        "pkg/",
        "@123/package",
        "~package",
        "package~",
        "@.org/package",
        "@org/.package",
        "package name",
        "@scope/package/extra",
        "a",
        "@a/",
        "@/a",
        "1package",
        "@scope/1package",
    ];

    for name in invalid_names {
        assert!(
            validate_package_name(name).is_err(),
            "Should reject {}",
            name
        );
    }
}

#[test]
fn test_create_project_config() {
    let path = "/test/path";
    let config = create_project_config(path, true);
    assert!(config.is_binary);
    assert_eq!(config.path, path);
    assert_eq!(config.source_content, MAIN_JS_CONTENT);

    let config = create_project_config(path, false);
    assert!(!config.is_binary);
    assert_eq!(config.source_content, LIB_JS_CONTENT);
}

#[test]
fn test_vcs_config_default() {
    let config = VcsConfig::default();
    assert_eq!(config.vcs_type, VcsType::Git);
    assert_eq!(config.ignore_content, GITIGNORE_CONTENT);
}
