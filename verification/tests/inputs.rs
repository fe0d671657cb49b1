use std::io::Write;

use cargonode::error::Error;
use cargonode::inputs::{gather_input_files, Globbed, InputTracker, MAX_FILES};

fn create_test_file(dir: &std::path::Path, name: &str, content: &[u8]) -> tempfile::NamedTempFile {
    let mut file = tempfile::Builder::new()
        .prefix(name)
        .rand_bytes(0)
        .tempfile_in(dir)
        .unwrap();
    file.write_all(content).unwrap();
    file
}

#[test]
fn test_get_input_files() {
    let temp_dir = tempfile::TempDir::new().unwrap();
    let dir_path = temp_dir.path();
    let base = dir_path.to_string_lossy().to_string();

    let _f1 = create_test_file(dir_path, "file1.txt", b"content1");
    let _f2 = create_test_file(dir_path, "file2.txt", b"content2");
    let _f3 = create_test_file(dir_path, "other.log", b"log content");

    let sub_dir = tempfile::Builder::new()
        .prefix("subdir")
        .rand_bytes(0)
        .tempdir_in(dir_path)
        .unwrap();
    let _f4 = create_test_file(sub_dir.path(), "file3.txt", b"content3");

    let tracker = InputTracker::new(&base, vec!["*.txt".to_string()]);
    let files = tracker.get_input_files().unwrap();
    assert_eq!(files.len(), 2);

    let tracker = InputTracker::new(&base, vec!["*.txt".to_string(), "*.log".to_string()]);
    let files = tracker.get_input_files().unwrap();
    assert_eq!(files.len(), 3);

    let tracker = InputTracker::new(&base, vec!["**/*.txt".to_string()]);
    let files = tracker.get_input_files().unwrap();
    assert_eq!(files.len(), 3);
}

#[test]
fn test_empty_patterns() {
    let temp_dir = tempfile::TempDir::new().unwrap();
    let base = temp_dir.path().to_string_lossy().to_string();
    let tracker = InputTracker::new(&base, vec![]);
    let files = tracker.get_input_files().unwrap();
    assert_eq!(files.len(), 0);
}

#[test]
fn overlapping_patterns_list_each_file_once() {
    let temp_dir = tempfile::TempDir::new().unwrap();
    let dir_path = temp_dir.path();
    let base = dir_path.to_string_lossy().to_string();
    let _f1 = create_test_file(dir_path, "a.txt", b"a");
    let tracker = InputTracker::new(&base, vec!["*.txt".to_string(), "a.*".to_string()]);
    let files = tracker.get_input_files().unwrap();
    assert_eq!(files, vec![format!("{}/a.txt", base)]);
}

#[test]
fn invalid_pattern_is_named() {
    let tracker = InputTracker::new("/base", vec!["[".to_string()]);
    match tracker.get_input_files() {
        Err(Error::Input { message }) => assert!(message.starts_with("Invalid glob pattern '[': ")),
        other => panic!("unexpected {:?}", other),
    }
}

fn found(path: &str, is_file: bool) -> (Result<String, String>, bool) {
    (Ok(path.to_string()), is_file)
}

#[test]
fn gathering_keeps_files_once_in_order() {
    let patterns = vec!["*.ts".to_string(), "src/*".to_string()];
    let globbed: Vec<Globbed> = vec![
        Ok(vec![found("/p/a.ts", true), found("/p/dir.ts", false)]),
        Ok(vec![found("/p/src/b.ts", true), found("/p/a.ts", true)]),
    ];
    assert_eq!(
        gather_input_files(&patterns, &globbed).unwrap(),
        vec!["/p/a.ts".to_string(), "/p/src/b.ts".to_string()]
    );
}

#[test]
fn gathering_reports_the_first_failure() {
    let patterns = vec!["*.ts".to_string(), "[".to_string()];
    let globbed: Vec<Globbed> = vec![
        Ok(vec![found("/p/a.ts", true), (Err("denied".to_string()), false)]),
        Err("bad".to_string()),
    ];
    assert_eq!(
        gather_input_files(&patterns, &globbed),
        Err(Error::Input { message: "Failed to process glob entry: denied".to_string() })
    );
    let globbed: Vec<Globbed> = vec![Ok(vec![found("/p/a.ts", true)]), Err("bad".to_string())];
    assert_eq!(
        gather_input_files(&patterns, &globbed),
        Err(Error::Input { message: "Invalid glob pattern '[': bad".to_string() })
    );
}

#[test]
fn gathering_stops_at_the_file_limit() {
    let many: Vec<(Result<String, String>, bool)> =
        (0..=MAX_FILES).map(|i| found(&format!("/p/{}.ts", i), true)).collect();
    let patterns = vec!["*.ts".to_string()];
    let globbed: Vec<Globbed> = vec![Ok(many)];
    assert_eq!(
        gather_input_files(&patterns, &globbed),
        Err(Error::Input { message: "Too many input files (limit: 10000)".to_string() })
    );
}
