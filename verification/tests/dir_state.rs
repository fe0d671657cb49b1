use cargonode::cn_core::path::{
    directory_check, validate_directory_state, write_access_verdict, DirectoryCheck,
};
use cargonode::cn_core::Error;

#[test]
fn test_non_existent_parent() {
    let test_path = "non_existent_dir/project";
    let result = validate_directory_state(test_path, true, "/");
    assert!(result.is_err());
    assert!(matches!(result, Err(Error::InvalidPath(_))));
}

#[test]
fn missing_path_that_must_exist_is_named() {
    let r = directory_check("a/b", true, "/home/u", false, false, true, None);
    assert_eq!(r, Err(Error::InvalidPath("Path not found: a/b".to_string())));
}

#[test]
fn existing_file_is_not_a_directory() {
    let r = directory_check("a/b", false, "/home/u", true, false, true, None);
    assert_eq!(r, Err(Error::InvalidPath("Not a directory: a/b".to_string())));
}

#[test]
fn existing_parent_is_the_directory_to_write() {
    let r = directory_check("a/b/c", false, "/home/u", false, false, true, None);
    assert_eq!(r, Ok(DirectoryCheck::WriteAccess("/home/u/a/b".to_string())));
}

#[test]
fn single_component_goes_into_the_working_directory() {
    let r = directory_check("proj", false, "/home/u", false, false, true, None);
    assert_eq!(r, Ok(DirectoryCheck::WriteAccess("/home/u/".to_string())));
}

#[test]
fn nearest_existing_ancestor_is_the_directory_to_write() {
    let r = directory_check("a/b/c", false, "/home/u", false, false, false, Some(2));
    assert_eq!(r, Ok(DirectoryCheck::WriteAccess("/home/u".to_string())));
    let r = directory_check("a/b/c", false, "/home/u", false, false, false, Some(4));
    assert_eq!(r, Ok(DirectoryCheck::WriteAccess("/".to_string())));
}

#[test]
fn no_existing_ancestor_depends_on_absoluteness() {
    let r = directory_check("a/b", false, "home", false, false, false, None);
    assert_eq!(
        r,
        Err(Error::InvalidPath("Cannot determine write permissions for path: a/b".to_string()))
    );
    let r = directory_check("/a/b", false, "home", false, false, false, None);
    assert_eq!(r, Ok(DirectoryCheck::Unchecked));
}

#[test]
fn write_access_verdicts() {
    let d = DirectoryCheck::WriteAccess("/home/u".to_string());
    assert_eq!(write_access_verdict(d.clone(), true), Ok(()));
    assert_eq!(
        write_access_verdict(d, false),
        Err(Error::Permission("Write permission denied: /home/u".to_string()))
    );
    assert_eq!(write_access_verdict(DirectoryCheck::Unchecked, false), Ok(()));
}

#[test]
fn existing_directory_on_disk_asks_for_its_parent() {
    let tmp = tempfile::tempdir().unwrap();
    let base = tmp.path().to_string_lossy().to_string();
    let project = format!("{}/project", base);
    let r = validate_directory_state(&project, false, "/");
    assert_eq!(r, Ok(DirectoryCheck::WriteAccess(base.clone())));
    let r = validate_directory_state(&project, true, "/");
    assert_eq!(r, Err(Error::InvalidPath(format!("Path not found: {}", project))));
    let r = validate_directory_state(&base, true, "/");
    assert!(matches!(r, Ok(DirectoryCheck::WriteAccess(_))));
}
