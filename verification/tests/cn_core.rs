use cargonode::cn_core::path::{normalize_path, validate_path_length, MAX_PATH_LENGTH};
use cargonode::cn_core::template::{
    is_valid_npm_version, is_valid_semver, manifest_invalid, manifest_not_found,
    manifest_unreadable, workspace_config_files, TemplateConfig, TemplateFile, TEMPLATE_MANIFEST,
};
use cargonode::cn_core::{ProjectType, Vcs};

#[test]
fn test_project_type_default() {
    assert_eq!(ProjectType::default(), ProjectType::Application);
}

#[test]
fn test_vcs_default() {
    assert_eq!(Vcs::default(), Vcs::Git);
}

#[test]
fn test_validate_path_length() {
    let short_path = "short/path";
    assert!(validate_path_length(short_path).is_ok());

    let long_string = "a".repeat(MAX_PATH_LENGTH + 1);
    assert!(validate_path_length(&long_string).is_err());
}

#[test]
fn test_normalize_path() {
    let test_cases = vec![
        ("a/b/c/../../b", "a/b"),
        ("a/./b", "a/b"),
        ("a/b/c/..", "a/b"),
    ];

    for (input, expected) in test_cases {
        let normalized = normalize_path(input);
        assert_eq!(normalized, expected);
    }
}

#[test]
fn test_long_path() {
    let long_string = "a".repeat(MAX_PATH_LENGTH + 1);
    let result = validate_path_length(&long_string);
    assert!(result.is_err());
}

fn template(name: &str, version: &str, files: Vec<(String, TemplateFile)>) -> TemplateConfig {
    TemplateConfig {
        name: name.into(),
        description: "Test template".into(),
        version: version.into(),
        project_types: vec![ProjectType::Application],
        files,
        dependencies: Vec::new(),
        dev_dependencies: Vec::new(),
        scripts: Vec::new(),
    }
}

#[test]
fn test_template_validation() {
    let valid_template = template("test", "1.0.0", Vec::new());
    assert!(valid_template.validate().is_ok());

    let invalid_name = template("", "1.0.0", Vec::new());
    assert!(invalid_name.validate().is_err());

    let invalid_version = template("test", "invalid", Vec::new());
    assert!(invalid_version.validate().is_err());
}

#[test]
fn test_template_rendering() {
    let files = vec![(
        "package.json".to_string(),
        TemplateFile {
            path: "package.json".into(),
            content: r#"{"name":"{{project-name}}","version":"1.0.0"}"#.into(),
            executable: false,
        },
    )];
    let template = template("test", "1.0.0", files);

    let rendered = template
        .render("my-project", ProjectType::Application)
        .unwrap();
    let content = rendered
        .iter()
        .find(|(path, _)| path == "package.json")
        .map(|(_, content)| content.clone())
        .unwrap();
    assert_eq!(content, r#"{"name":"my-project","version":"1.0.0"}"#);
}

#[test]
fn test_version_validation() {
    assert!(is_valid_semver("1.0.0"));
    assert!(!is_valid_semver("1.0.0-alpha.1"));
    assert!(!is_valid_semver("invalid"));
}

#[test]
fn test_npm_version_validation() {
    assert!(is_valid_npm_version("1.0.0"));
    assert!(is_valid_npm_version("^1.0.0"));
    assert!(is_valid_npm_version("~1.0.0"));
    assert!(is_valid_npm_version(">=1.0.0"));
    assert!(is_valid_npm_version("*"));
    assert!(is_valid_npm_version("1.x"));
    assert!(is_valid_npm_version("1.2.x"));

    assert!(!is_valid_npm_version(""));
    assert!(!is_valid_npm_version("invalid"));
    assert!(!is_valid_npm_version("1.0"));
    assert!(!is_valid_npm_version("1.0.0.0"));
}

#[test]
fn template_manifest_failures_and_workspace_files() {
    assert_eq!(TEMPLATE_MANIFEST, "template.json");
    assert_eq!(
        manifest_not_found("/t/template.json"),
        cargonode::cn_core::Error::Template("Template manifest not found at /t/template.json".to_string())
    );
    assert_eq!(
        manifest_unreadable("denied"),
        cargonode::cn_core::Error::Template("Failed to read template manifest: denied".to_string())
    );
    assert_eq!(
        manifest_invalid("eof"),
        cargonode::cn_core::Error::Template("Invalid template manifest: eof".to_string())
    );
    assert_eq!(
        workspace_config_files(),
        vec![(".gitignore".to_string(), "node_modules/".to_string(), false)]
    );
}
