use cargonode::ops::new::{
    check_destination, check_package_place, destination_verdict, existing_manifest_action,
    inherits_scripts, package_place_verdict, scripts_to_inherit, Destination, ExistingManifest,
    PlaceLinks,
};
use cargonode::ui::status::Status;

fn links(is_symlink: bool, parent_exists: bool, parent_is_symlink: bool) -> PlaceLinks {
    PlaceLinks { is_symlink, parent_exists, parent_is_symlink }
}

#[test]
fn package_place_refusals() {
    assert_eq!(
        package_place_verdict("../x", links(false, true, false)),
        Err("Path traversal detected: ../x".to_string())
    );
    assert_eq!(
        package_place_verdict("work/x", links(true, true, false)),
        Err("Symlinks are not allowed: work/x".to_string())
    );
    assert_eq!(
        package_place_verdict("work/x", links(false, true, true)),
        Err("Symlinks are not allowed in parent directory: work".to_string())
    );
    assert_eq!(package_place_verdict("work/x", links(false, true, false)), Ok(()));
}

#[test]
fn destination_verdicts() {
    assert_eq!(destination_verdict("p", false, Ok(false), false), Ok(Destination::Create));
    assert_eq!(destination_verdict("p", true, Ok(false), false), Ok(Destination::UseExisting));
    assert_eq!(
        destination_verdict("p", true, Ok(true), true),
        Err("Destination `p` already exists and is not empty".to_string())
    );
    assert_eq!(
        destination_verdict("p", true, Err("denied".to_string()), false),
        Err("denied".to_string())
    );
    assert_eq!(
        destination_verdict("p", true, Ok(false), true),
        Err("package.json already exists".to_string())
    );
}

#[test]
fn destination_on_disk() {
    let tmp = tempfile::tempdir().unwrap();
    let base = tmp.path().to_string_lossy().to_string();
    let fresh = format!("{}/fresh", base);
    assert_eq!(
        check_destination(&fresh, &format!("{}/package.json", fresh)),
        Ok(Destination::Create)
    );
    assert_eq!(check_package_place(&fresh), Ok(()));
    let _file = tempfile::Builder::new().prefix("x").tempfile_in(tmp.path()).unwrap();
    assert_eq!(
        check_destination(&base, &format!("{}/package.json", base)),
        Err(format!("Destination `{}` already exists and is not empty", base))
    );
}

#[test]
fn existing_manifest_actions() {
    assert_eq!(existing_manifest_action(true, true), ExistingManifest::AlreadyWorkspace);
    assert_eq!(existing_manifest_action(true, false), ExistingManifest::Refused);
    assert_eq!(existing_manifest_action(false, true), ExistingManifest::Refused);
}

#[test]
fn status_lines() {
    let created = Status::new(true, false, true);
    assert_eq!(
        created.start_line("work/my-app", false),
        "   Creating  binary package `my-app` in work/my-app"
    );
    assert_eq!(
        created.start_line(".", true),
        "   🔨  binary package `current directory` in ."
    );
    let init = Status::new(false, true, false);
    assert_eq!(
        init.start_line("/", false),
        "   Initializing  library package `/` in /"
    );
    assert_eq!(created.created_manifest_line(false), "      package.json Created manifest file");
    assert_eq!(created.created_manifest_line(true), "      📦 Created manifest file");
    assert_eq!(created.created_source_files_line(), "      📄 Created source files");
    assert_eq!(
        created.created_workspace_line(false),
        "      workspace Created workspace configuration"
    );
    assert_eq!(created.initialized_git_line(false), "      git Initialized git repository");
    assert_eq!(created.created_package_line(false), "      * Created binary package");
    assert_eq!(created.finish_line("my-app"), "\nSuccessfully created binary package `my-app`");
    assert_eq!(init.finish_line("lib"), "\nSuccessfully initialized library package `lib`");
    assert_eq!(init.warning_line("careful", false), "! Warning: careful");
}

#[test]
fn workspace_scripts_are_inherited_when_missing() {
    assert!(inherits_scripts(None));
    assert!(inherits_scripts(Some(true)));
    assert!(!inherits_scripts(Some(false)));
    let own = vec!["test".to_string(), "start".to_string()];
    let root = vec!["build".to_string(), "lint".to_string(), "test".to_string()];
    assert_eq!(scripts_to_inherit(&own, &root), vec!["build".to_string(), "lint".to_string()]);
    assert!(scripts_to_inherit(&root, &root).is_empty());
}
