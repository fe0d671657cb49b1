use cargonode::cn_core::fs::{
    file_mode, fs_failure, removal_of, FsOperation, DEFAULT_EXEC_MODE, DEFAULT_FILE_MODE,
};
use cargonode::cn_core::Error;

#[test]
fn modes_of_written_files() {
    assert_eq!(file_mode(true), DEFAULT_EXEC_MODE);
    assert_eq!(file_mode(false), DEFAULT_FILE_MODE);
    assert_eq!(file_mode(true), 0o755);
    assert_eq!(file_mode(false), 0o644);
}

#[test]
fn failures_are_worded() {
    assert_eq!(
        fs_failure(FsOperation::CreateDirectory, "/x", true, "denied".to_string()),
        Error::Permission("Permission denied when creating directory: /x".to_string())
    );
    assert_eq!(
        fs_failure(FsOperation::ReadFile, "/x/a", true, "denied".to_string()),
        Error::Permission("Permission denied when reading file: /x/a".to_string())
    );
    assert_eq!(
        fs_failure(FsOperation::RemoveFile, "/x/a", false, "busy".to_string()),
        Error::Io("busy".to_string())
    );
    assert_eq!(removal_of(true), FsOperation::RemoveDirectory);
    assert_eq!(removal_of(false), FsOperation::RemoveFile);
}
