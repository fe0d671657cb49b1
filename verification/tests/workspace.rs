use std::path::Path;

use cargonode::cn_core::package_manager::{
    detect_package_manager, first_declaring, get_workspace_packages, is_member_manifest,
    require_package_name, same_place_exec, workspace_dependency_names, workspace_packages_from,
    workspace_patterns, workspace_root_candidates, PackageManager, WorkspaceSpec,
};
use cargonode::cn_core::Error;
use cargonode::inputs::Globbed;

fn touch(dir: &Path, name: &str) -> tempfile::NamedTempFile {
    tempfile::Builder::new().prefix(name).rand_bytes(0).tempfile_in(dir).unwrap()
}

fn subdir(dir: &Path, name: &str) -> tempfile::TempDir {
    tempfile::Builder::new().prefix(name).rand_bytes(0).tempdir_in(dir).unwrap()
}

#[test]
fn test_detect_package_manager() {
    let temp = tempfile::tempdir().unwrap();
    let dir = temp.path().to_string_lossy().to_string();

    assert_eq!(detect_package_manager(&dir), PackageManager::Npm);

    let yarn_lock = touch(temp.path(), "yarn.lock");
    assert_eq!(detect_package_manager(&dir), PackageManager::Yarn);

    let yarnrc = touch(temp.path(), ".yarnrc.yml");
    assert_eq!(detect_package_manager(&dir), PackageManager::YarnBerry);

    drop(yarn_lock);
    drop(yarnrc);

    let _pnpm = touch(temp.path(), "pnpm-lock.yaml");
    assert_eq!(detect_package_manager(&dir), PackageManager::Pnpm);
}

#[test]
fn test_workspace_packages() {
    let temp = tempfile::tempdir().unwrap();
    let root = temp.path().to_string_lossy().to_string();
    let packages_dir = subdir(temp.path(), "packages");
    let mut dirs = Vec::new();
    let mut files = Vec::new();
    for pkg in ["pkg-a", "pkg-b", "pkg-c"] {
        let d = subdir(packages_dir.path(), pkg);
        files.push(touch(d.path(), "package.json"));
        files.push(touch(d.path(), "index.js"));
        dirs.push(d);
    }
    let _not_a_package = subdir(packages_dir.path(), "docs");

    let ws = Some(WorkspaceSpec::Patterns(vec!["packages/*".to_string()]));
    let packages = get_workspace_packages(&root, &ws).unwrap();
    assert_eq!(packages.len(), 3);
    for pkg in ["pkg-a", "pkg-b", "pkg-c"] {
        assert!(packages.contains(&format!("{}/packages/{}", root, pkg)));
    }

    let yarn = Some(WorkspaceSpec::YarnConfig {
        packages: vec!["packages/pkg-a".to_string()],
        nohoist: vec!["**/react-native".to_string()],
    });
    assert_eq!(
        get_workspace_packages(&root, &yarn).unwrap(),
        vec![format!("{}/packages/pkg-a", root)]
    );
    assert_eq!(get_workspace_packages(&root, &None).unwrap(), Vec::<String>::new());
}

#[test]
fn declared_patterns_of_both_forms() {
    assert_eq!(
        workspace_patterns(&Some(WorkspaceSpec::Patterns(vec!["a/*".to_string()]))),
        vec!["a/*".to_string()]
    );
    assert_eq!(
        workspace_patterns(&Some(WorkspaceSpec::YarnConfig {
            packages: vec!["b/*".to_string()],
            nohoist: vec![]
        })),
        vec!["b/*".to_string()]
    );
    assert!(workspace_patterns(&None).is_empty());
}

#[test]
fn listing_failures() {
    let globbed: Vec<Globbed> = vec![Err("unclosed [".to_string())];
    assert_eq!(
        workspace_packages_from(&globbed),
        Err(Error::Template("Invalid glob pattern: unclosed [".to_string()))
    );
    let globbed: Vec<Globbed> = vec![Ok(vec![
        (Ok("/w/a".to_string()), true),
        (Err("permission denied".to_string()), false),
    ])];
    assert_eq!(
        workspace_packages_from(&globbed),
        Err(Error::Io("permission denied".to_string()))
    );
}

#[test]
fn root_search_walks_up() {
    assert_eq!(
        workspace_root_candidates("/w/packages/a"),
        vec!["/w/packages/a".to_string(), "/w/packages".to_string(), "/w".to_string()]
    );
    assert_eq!(workspace_root_candidates("a"), vec!["a".to_string()]);
    assert!(workspace_root_candidates("/").is_empty());
    let c = vec!["x".to_string(), "y".to_string(), "z".to_string()];
    assert_eq!(first_declaring(&c, &vec![false, true, true]), Some("y".to_string()));
    assert_eq!(first_declaring(&c, &vec![false, false, false]), None);
}

#[test]
fn members_and_their_names() {
    assert!(same_place_exec("/w/a//package.json", "/w/a/./package.json"));
    assert!(!same_place_exec("./a", "a"));
    assert!(!same_place_exec("/a", "a"));
    assert!(is_member_manifest("/w/a/package.json", "/w/b/package.json", true));
    assert!(!is_member_manifest("/w/a/package.json", "/w/a/package.json", true));
    assert!(!is_member_manifest("/w/a/package.json", "/w/b/package.json", false));
    assert_eq!(require_package_name(Some("a".to_string())), Ok("a".to_string()));
    assert_eq!(
        require_package_name(None),
        Err(Error::Workspace("Package name not found".to_string()))
    );
    let names = vec![Some("@t/a".to_string()), None, Some("@t/b".to_string()), Some("@t/c".to_string())];
    assert_eq!(
        workspace_dependency_names("@t/a", &names),
        vec!["@t/b".to_string(), "@t/c".to_string()]
    );
}
