use cargonode::cmd::{validate_executable, validate_working_dir};
use cargonode::commands::journal::show_history;
use cargonode::commands::project::create_package_config;
use cargonode::config::{validate_project_config, ProjectConfig};
use cargonode::journal::Journal;
use cargonode::project::validate_dir_state;
use cargonode::template::ProjectType;

#[test]
fn test_validate_working_dir_valid() {
    let temp_dir = tempfile::tempdir().unwrap();
    let result = validate_working_dir(temp_dir.path().to_str().unwrap());
    assert!(result.is_ok());
    let canonical = temp_dir.path().canonicalize().unwrap();
    assert_eq!(result.unwrap(), canonical.to_str().unwrap());
}

#[test]
fn test_validate_executable_invalid() {
    let result = validate_executable("nonexistent_executable");
    assert!(result.is_err());
}

#[test]
fn config_test_validate_project_config() {
    let temp_dir = tempfile::tempdir().unwrap();
    let path = temp_dir.path().join("@scope").join("my-pkg");
    let path = path.to_str().unwrap();

    let config = validate_project_config(path, true, None).unwrap();
    assert!(!config.is_binary);
    assert_eq!(config.path, path);
    assert_eq!(config.name, "@scope/my-pkg");
}

#[test]
fn test_create_package_config() {
    let temp_dir = tempfile::tempdir().unwrap();
    let config = ProjectConfig {
        name: "test-pkg".to_string(),
        path: temp_dir.path().to_str().unwrap().to_string(),
        is_binary: true,
        vcs_config: None,
    };

    let pkg_config = create_package_config(&config);
    assert_eq!(pkg_config.name, "test-pkg");
    assert!(matches!(pkg_config.project_type, ProjectType::Binary));
    assert!(pkg_config.version.is_none());
}

#[test]
fn test_show_history() {
    let journal = Journal::at("journal-dir", 10);
    let entry1 = Journal::create_entry(
        "test-tool",
        "test-hash",
        "npm",
        &["run".to_string(), "test".to_string()],
        0,
        false,
    );
    let entry2 = Journal::create_entry("build-tool", "build-hash", "yarn", &["build".to_string()], 1, true);
    let entries = journal.add_entry(Vec::new(), entry1);
    let entries = journal.add_entry(entries, entry2);

    let lines = show_history(None, 10, entries.clone(), false, false);
    assert_eq!(lines.len(), 4);
    let lines = show_history(Some("test-tool"), 10, entries, true, false);
    assert_eq!(lines.len(), 3);
    assert!(lines[1].contains("Tool: test-tool | Command: npm run test | Hash: test-hash"));
}

#[test]
fn test_journal_operations() {
    let journal = Journal::at("journal-dir", 10);
    let entries = Vec::new();
    assert_eq!(entries.len(), 0);

    let entry = Journal::create_entry(
        "test-tool",
        "test-hash",
        "npm",
        &["run".to_string(), "test".to_string()],
        0,
        false,
    );
    let entries = journal.add_entry(entries, entry);
    assert_eq!(entries.len(), 1);
    let retrieved = &entries[0];
    assert_eq!(retrieved.tool_name, "test-tool");
    assert_eq!(retrieved.input_hash, "test-hash");
    assert_eq!(retrieved.command, "npm");
    assert_eq!(retrieved.args, vec!["run".to_string(), "test".to_string()]);
    assert_eq!(retrieved.exit_code, 0);
    assert!(!retrieved.from_cache);

    let entry2 = Journal::create_entry("build-tool", "build-hash", "yarn", &["build".to_string()], 0, true);
    let entries = journal.add_entry(entries, entry2);
    assert_eq!(entries.len(), 2);

    let test_entries = journal.get_entries_for_tool(entries.clone(), "test-tool");
    assert_eq!(test_entries.len(), 1);
    assert_eq!(test_entries[0].tool_name, "test-tool");

    let build_entries = journal.get_entries_for_tool(entries, "build-tool");
    assert_eq!(build_entries.len(), 1);
    assert_eq!(build_entries[0].tool_name, "build-tool");
}

#[test]
fn test_journal_max_entries() {
    let journal = Journal::at("journal-dir", 3);
    let mut entries = Vec::new();
    for i in 0..5 {
        let entry = Journal::create_entry(
            &format!("tool-{}", i),
            &format!("hash-{}", i),
            "cmd",
            &[format!("arg-{}", i)],
            0,
            false,
        );
        entries = journal.add_entry(entries, entry);
    }
    assert_eq!(entries.len(), 3);
    assert_eq!(entries[0].tool_name, "tool-2");
    assert_eq!(entries[1].tool_name, "tool-3");
    assert_eq!(entries[2].tool_name, "tool-4");
}

fn named_file(dir: &std::path::Path, name: &str) -> tempfile::NamedTempFile {
    tempfile::Builder::new()
        .prefix(name)
        .rand_bytes(0)
        .tempfile_in(dir)
        .unwrap()
}

#[test]
fn test_validate_dir_state_empty() {
    let temp_dir = tempfile::tempdir().unwrap();
    let result = validate_dir_state(temp_dir.path().to_str().unwrap());
    assert!(result.is_ok());
}

#[test]
fn test_validate_dir_state_non_empty() {
    let temp_dir = tempfile::tempdir().unwrap();
    let _file = named_file(temp_dir.path(), "test.txt");
    let result = validate_dir_state(temp_dir.path().to_str().unwrap());
    assert!(result.is_ok());
}

#[test]
fn test_validate_dir_state_existing_package_json() {
    let temp_dir = tempfile::tempdir().unwrap();
    let _file = named_file(temp_dir.path(), "package.json");
    let result = validate_dir_state(temp_dir.path().to_str().unwrap());
    assert!(result.is_err());
}
