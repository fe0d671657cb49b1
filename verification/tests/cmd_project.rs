use cargonode::cmd::project::{
    creation_failure, dir_state_verdict, entry_plan, not_empty_warning, prepare_placeholders, project_status,
    validate_dir_state, validate_project_name,
};
use cargonode::project::{EntryAction, EntryKind, ProjectKind};

#[test]
fn status_lines_of_new_and_init() {
    assert_eq!(project_status("my-app", ProjectKind::New), "Creating `my-app` package");
    assert_eq!(project_status("/w/app", ProjectKind::Init), "Initializing `/w/app` package");
}

#[test]
fn project_names_come_from_the_directory() {
    assert_eq!(validate_project_name("work/my-app"), Ok(()));
    assert_eq!(validate_project_name("/"), Err("Invalid directory name".to_string()));
    assert!(validate_project_name("work/My App").is_err());
}

#[test]
fn directory_states() {
    assert_eq!(dir_state_verdict(Ok(false), false), Ok(false));
    assert_eq!(dir_state_verdict(Ok(true), false), Ok(true));
    assert_eq!(
        dir_state_verdict(Ok(true), true),
        Err("package.json manifest already exists in the current directory".to_string())
    );
    assert_eq!(dir_state_verdict(Err("denied".to_string()), true), Err("denied".to_string()));
    let tmp = tempfile::tempdir().unwrap();
    assert_eq!(validate_dir_state(&tmp.path().to_string_lossy()), Ok(false));
}

#[test]
fn creation_failures_point_to_init() {
    assert_eq!(
        creation_failure("app", "File exists (os error 17)"),
        "destination `app` already exists: File exists (os error 17)\n\nUse `cargonode init` to initialize in the current directory"
    );
}

#[test]
fn entries_are_planned_with_the_name_filled_in() {
    let placeholders = prepare_placeholders("/w/my-app");
    assert_eq!(placeholders.get("NAME"), Some("my-app"));
    let a = entry_plan("/w/my-app", ProjectKind::New, EntryKind::Regular, "package.json", "{\"name\": \"{{ NAME }}\"}", &placeholders, true);
    assert_eq!(
        a,
        EntryAction::WriteFile {
            path: "/w/my-app/package.json".to_string(),
            content: "{\"name\": \"my-app\"}".to_string()
        }
    );
    let a = entry_plan("/w/my-app", ProjectKind::Init, EntryKind::Regular, "README.md", "x", &placeholders, true);
    assert_eq!(
        a,
        EntryAction::Skip { warning: "File already exists; skipping: /w/my-app/README.md".to_string() }
    );
    let a = entry_plan("/w/my-app", ProjectKind::Init, EntryKind::Directory, "src", "", &placeholders, false);
    assert_eq!(a, EntryAction::CreateDir { path: "/w/my-app/src".to_string() });
}

#[test]
fn scaffolding_messages() {
    assert_eq!(cargonode::project::scaffold_message("app"), "`app` package");
    assert_eq!(
        cargonode::project::creation_failure("app", "exists"),
        "Destination 'app' already exists or cannot be created: exists\n\nHint: Use `cargonode init` to initialize in the current directory."
    );
    assert!(cargonode::project::no_manager_note().contains("run `npm install`"));
}

#[test]
fn non_empty_directories_are_kept() {
    assert_eq!(not_empty_warning(), "Directory is not empty; existing files will be preserved.");
}
