use cargonode::util::platform::{is_safe_path, safe_path_verdict, LinkState};

fn disk(exists: bool, is_symlink: bool, parent_exists: bool, parent_is_symlink: bool) -> LinkState {
    LinkState { exists, is_symlink, parent_exists, parent_is_symlink }
}

#[test]
fn traversal_is_refused_even_with_links_allowed() {
    assert_eq!(
        safe_path_verdict("a/../b", true, disk(false, false, false, false)),
        Err("Path traversal detected: a/../b".to_string())
    );
}

#[test]
fn existing_link_is_refused_unless_allowed() {
    let d = disk(true, true, true, false);
    assert_eq!(
        safe_path_verdict("bin/run", false, d),
        Err("Symlinks are not allowed: bin/run".to_string())
    );
    assert_eq!(safe_path_verdict("bin/run", true, d), Ok(()));
}

#[test]
fn linked_parent_is_named() {
    assert_eq!(
        safe_path_verdict("bin/tools/run", false, disk(false, false, true, true)),
        Err("Symlinks are not allowed in parent directory: bin/tools".to_string())
    );
    assert_eq!(safe_path_verdict("bin/tools/run", false, disk(false, false, false, true)), Ok(()));
}

#[test]
fn plain_paths_on_disk_are_safe() {
    let tmp = tempfile::tempdir().unwrap();
    let file = format!("{}/missing", tmp.path().to_string_lossy());
    assert_eq!(is_safe_path(&file, false), Ok(()));
    assert_eq!(
        is_safe_path("x/../y", false),
        Err("Path traversal detected: x/../y".to_string())
    );
}
