use cargonode::commands::journal::{format_timestamp, MAX_TIMESTAMP};
use cargonode::commands::project::{create_project, project_verdict};
use cargonode::utils::{emptiness_requirement, emptiness_verdict, ensure_directory_empty, is_directory_empty, VcsConfig};
use cargonode::ops::replace::Replacements;
use cargonode::Error;

#[test]
fn new_project_refuses_a_non_empty_directory() {
    let r = project_verdict("/tmp/work/my-app", false, None, true, Ok(false), false);
    match r {
        Err(Error::DirectoryNotEmpty { path }) => assert_eq!(path, "/tmp/work/my-app"),
        other => panic!("unexpected {:?}", other.map(|p| p.message)),
    }
}

#[test]
fn new_project_passes_on_a_failed_listing() {
    let r = project_verdict("/tmp/work/my-app", false, None, true, Err(Error::Io { message: "denied".into() }), false);
    assert!(matches!(r, Err(Error::Io { message }) if message == "denied"));
}

#[test]
fn init_refuses_an_existing_manifest_and_new_ignores_it() {
    assert!(matches!(
        project_verdict("/tmp/work/my-app", true, None, false, Ok(true), true),
        Err(Error::PackageJsonExists)
    ));
    let plan = project_verdict("/tmp/work/my-app", true, None, true, Ok(true), true).unwrap();
    assert_eq!(plan.action, "Creating");
    assert_eq!(plan.package_json.name, "my-app");
    assert_eq!(plan.message, "library package `my-app`");
    let plan = project_verdict("/tmp/work/my-app", false, Some(VcsConfig::default()), false, Ok(false), false).unwrap();
    assert_eq!(plan.action, "Initializing");
    assert!(plan.vcs.is_some());
    assert!(plan.package_json.private);
}

#[test]
fn invalid_names_are_refused_after_the_destination_check() {
    assert!(matches!(
        project_verdict("/tmp/work/My App", false, None, true, Ok(true), false),
        Err(Error::InvalidPackageName { .. })
    ));
    assert!(matches!(
        project_verdict("/tmp/work/My App", false, None, true, Ok(false), false),
        Err(Error::DirectoryNotEmpty { .. })
    ));
}

#[test]
fn create_project_on_disk() {
    let dir = tempfile::tempdir().unwrap();
    let target = dir.path().join("fresh-app");
    let plan = create_project(target.to_str().unwrap(), false, None, true).unwrap();
    assert_eq!(plan.package_json.name, "fresh-app");
    let busy = tempfile::Builder::new().prefix("busy-app").rand_bytes(0).tempdir_in(dir.path()).unwrap();
    let _x = named_file(busy.path(), "x.txt");
    assert!(matches!(create_project(busy.path().to_str().unwrap(), false, None, true), Err(Error::DirectoryNotEmpty { .. })));
    let _manifest = named_file(busy.path(), "package.json");
    assert!(matches!(create_project(busy.path().to_str().unwrap(), false, None, false), Err(Error::PackageJsonExists)));
}

#[test]
fn emptiness_answers() {
    assert_eq!(emptiness_verdict("p", false, false, Ok(true)), Ok(true));
    assert!(matches!(emptiness_verdict("p", true, false, Ok(false)), Err(Error::DirectoryExists { path }) if path == "p"));
    assert_eq!(emptiness_verdict("p", true, true, Ok(true)), Ok(false));
    assert_eq!(emptiness_verdict("p", true, true, Ok(false)), Ok(true));
    assert_eq!(emptiness_requirement("p", Ok(true)), Ok(()));
    assert!(matches!(emptiness_requirement("p", Ok(false)), Err(Error::DirectoryNotEmpty { path }) if path == "p"));
}

#[test]
fn directory_emptiness_on_disk() {
    let dir = tempfile::tempdir().unwrap();
    let missing = dir.path().join("missing");
    assert_eq!(is_directory_empty(missing.to_str().unwrap()), Ok(true));
    assert_eq!(ensure_directory_empty(missing.to_str().unwrap()), Ok(()));
    assert_eq!(ensure_directory_empty(dir.path().to_str().unwrap()), Ok(()));
    let file = named_file(dir.path(), "f.txt");
    assert!(matches!(ensure_directory_empty(file.path().to_str().unwrap()), Err(Error::DirectoryExists { .. })));
    assert!(matches!(ensure_directory_empty(dir.path().to_str().unwrap()), Err(Error::DirectoryNotEmpty { .. })));
}

#[test]
fn the_last_date_chrono_represents_can_be_shown() {
    assert!(format_timestamp(MAX_TIMESTAMP).ends_with("262142-12-31 23:59:59"));
    assert_eq!(format_timestamp(0), "1970-01-01 00:00:00");
}

#[test]
fn replacements_give_the_last_value_added() {
    let mut r = Replacements::new();
    r.add("a", "1");
    r.add("b", "2");
    r.add("a", "3");
    assert_eq!(r.get("a"), Some("3"));
    assert_eq!(r.get("b"), Some("2"));
    assert_eq!(r.get("c"), None);
}

fn named_file(dir: &std::path::Path, name: &str) -> tempfile::NamedTempFile {
    tempfile::Builder::new().prefix(name).rand_bytes(0).tempfile_in(dir).unwrap()
}
