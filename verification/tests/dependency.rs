use std::collections::HashMap;

use cargonode::cn_core::dependency::{
    resolve_dependencies, resolve_with_versions, validate_dependency, DependencySpec,
    RegistryClient,
};
use cargonode::cn_core::registry::RegistryResponse;
use cargonode::cn_core::Error;
use semver::Version;

#[test]
fn test_dependency_validation() {
    let valid_dep = DependencySpec {
        name: "express".into(),
        version_req: "^4.17.1".into(),
        peer: false,
        optional: false,
    };
    assert!(validate_dependency(&valid_dep).is_ok());

    let invalid_name = DependencySpec {
        name: "".into(),
        version_req: "^4.17.1".into(),
        peer: false,
        optional: false,
    };
    assert!(validate_dependency(&invalid_name).is_err());

    let invalid_version = DependencySpec {
        name: "express".into(),
        version_req: "invalid".into(),
        peer: false,
        optional: false,
    };
    assert!(validate_dependency(&invalid_version).is_err());
}

struct MockClient {
    packages: HashMap<String, Vec<String>>,
}

impl MockClient {
    fn new() -> Self {
        MockClient { packages: HashMap::new() }
    }

    fn add_package(&mut self, name: &str, versions: Vec<String>) {
        self.packages.insert(name.to_string(), versions);
    }
}

impl RegistryClient for MockClient {
    fn get_package_info(&self, name: &str) -> Result<RegistryResponse, Error> {
        match self.packages.get(name) {
            Some(versions) => Ok(RegistryResponse {
                id: name.to_string(),
                name: name.to_string(),
                dist_tags: Vec::new(),
                versions: versions.clone(),
            }),
            None => Err(Error::Registry(format!("Package not found: {}", name))),
        }
    }
}

fn spec(name: &str, req: &str, peer: bool, optional: bool) -> DependencySpec {
    DependencySpec {
        name: name.into(),
        version_req: req.into(),
        peer,
        optional,
    }
}

#[test]
fn test_dependency_resolution() {
    let mut mock_client = MockClient::new();
    mock_client.add_package(
        "express",
        vec!["4.17.1".into(), "4.17.2".into(), "4.18.0".into()],
    );
    let specs = vec![spec("express", "^4.17.1", false, false)];
    let result = resolve_dependencies(&specs, &mock_client).unwrap();
    assert_eq!(result.resolved.len(), 1);
    assert_eq!(result.resolved[0].name, "express");
    assert_eq!(
        Version::parse(&result.resolved[0].version).unwrap(),
        Version::new(4, 18, 0)
    );
}

#[test]
fn test_dependency_conflicts() {
    let mut mock_client = MockClient::new();
    mock_client.add_package(
        "react",
        vec!["16.0.0".into(), "17.0.0".into(), "18.0.0".into()],
    );
    let specs = vec![
        spec("react", "^16.0.0", false, false),
        spec("react", "^18.0.0", true, false),
    ];
    let result = resolve_dependencies(&specs, &mock_client).unwrap();
    assert_eq!(result.conflicts.len(), 1);
    assert_eq!(result.conflicts[0].name, "react");
    assert_eq!(result.conflicts[0].requirements.len(), 2);
}

#[test]
fn test_peer_dependencies() {
    let mut mock_client = MockClient::new();
    mock_client.add_package("react", vec!["18.0.0".into()]);
    mock_client.add_package("react-dom", vec!["18.0.0".into()]);
    let specs = vec![
        spec("react", "^18.0.0", false, false),
        spec("react-dom", "^18.0.0", true, false),
    ];
    let result = resolve_dependencies(&specs, &mock_client).unwrap();
    assert_eq!(result.resolved.len(), 2);
    assert!(result.resolved.iter().any(|d| d.peer));
}

#[test]
fn test_optional_dependencies() {
    let mut mock_client = MockClient::new();
    mock_client.add_package("typescript", vec!["4.5.0".into()]);
    let specs = vec![spec("typescript", "^4.5.0", false, true)];
    let result = resolve_dependencies(&specs, &mock_client).unwrap();
    assert_eq!(result.resolved.len(), 1);
    assert!(result.resolved[0].optional);
}

#[test]
fn test_unresolvable_dependencies() {
    let mut mock_client = MockClient::new();
    mock_client.add_package("nonexistent", vec![]);
    let specs = vec![spec("nonexistent", "^1.0.0", false, false)];
    let result = resolve_dependencies(&specs, &mock_client).unwrap();
    assert_eq!(result.unresolved.len(), 1);
    assert_eq!(result.unresolved[0].name, "nonexistent");
}

#[test]
fn conflict_lists_requirements_and_versions() {
    let specs = vec![
        spec("react", "^16.0.0", false, false),
        spec("react", "^18.0.0", true, false),
    ];
    let offered = vec![
        vec!["16.0.0".to_string(), "not a version".to_string(), "18.0.0".to_string()],
        vec!["16.0.0".to_string(), "not a version".to_string(), "18.0.0".to_string()],
    ];
    let result = resolve_with_versions(&specs, &offered);
    assert_eq!(result.resolved.len(), 1);
    assert_eq!(result.resolved[0].version, "16.0.0");
    assert_eq!(result.conflicts.len(), 1);
    assert_eq!(
        result.conflicts[0].requirements,
        vec!["^16.0.0".to_string(), "^18.0.0".to_string()]
    );
    assert_eq!(
        result.conflicts[0].available_versions,
        vec!["16.0.0".to_string(), "18.0.0".to_string()]
    );
}

#[test]
fn no_match_after_a_resolution_is_a_conflict() {
    let specs = vec![
        spec("a", "^1.0.0", false, false),
        spec("a", "^3.0.0", false, false),
        spec("b", "^3.0.0", false, false),
    ];
    let offered = vec![
        vec!["1.0.0".to_string(), "1.2.0".to_string()],
        vec!["1.0.0".to_string(), "1.2.0".to_string()],
        vec!["1.0.0".to_string()],
    ];
    let result = resolve_with_versions(&specs, &offered);
    assert_eq!(result.resolved.len(), 1);
    assert_eq!(result.resolved[0].version, "1.2.0");
    assert_eq!(result.conflicts.len(), 1);
    assert_eq!(result.unresolved.len(), 1);
    assert_eq!(result.unresolved[0].name, "b");
}

#[test]
fn same_requirement_twice_resolves_twice() {
    let specs = vec![
        spec("a", "^1.0.0", false, false),
        spec("a", "^1.1.0", true, false),
    ];
    let offered = vec![vec!["1.2.0".to_string()], vec!["1.2.0".to_string()]];
    let result = resolve_with_versions(&specs, &offered);
    assert_eq!(result.resolved.len(), 2);
    assert!(result.conflicts.is_empty());
}

#[test]
fn invalid_specification_and_registry_failure_stop_resolution() {
    let mut mock_client = MockClient::new();
    mock_client.add_package("a", vec!["1.0.0".into()]);
    let specs = vec![spec("a", "^1.0.0", false, false), spec("", "^1.0.0", false, false)];
    assert_eq!(
        resolve_dependencies(&specs, &mock_client).unwrap_err(),
        Error::Template("Dependency name cannot be empty".to_string())
    );
    let specs = vec![spec("missing", "^1.0.0", false, false)];
    assert_eq!(
        resolve_dependencies(&specs, &mock_client).unwrap_err(),
        Error::Registry("Package not found: missing".to_string())
    );
}
