use cargonode::template::{create_package_json, PackageConfig, ProjectType};

#[test]
fn test_create_package_json_binary() {
    let config = PackageConfig {
        name: "test-bin".to_string(),
        project_type: ProjectType::Binary,
        version: None,
    };

    let package = create_package_json(config);

    assert_eq!(package.name, "test-bin");
    assert_eq!(package.version, "0.1.0");
    assert_eq!(package.main, Some("src/main.js".to_string()));
    assert!(package.private);

    let bin = package.bin.expect("Binary should have bin field");
    let entry = bin.iter().find(|(k, _)| k == "test-bin").map(|(_, v)| v);
    assert_eq!(entry, Some(&"src/main.js".to_string()));
}

#[test]
fn test_create_package_json_library() {
    let config = PackageConfig {
        name: "test-lib".to_string(),
        project_type: ProjectType::Library,
        version: Some("1.0.0".to_string()),
    };

    let package = create_package_json(config);

    assert_eq!(package.name, "test-lib");
    assert_eq!(package.version, "1.0.0");
    assert_eq!(package.main, Some("src/lib.js".to_string()));
    assert!(!package.private);
    assert!(package.bin.is_none());
}
