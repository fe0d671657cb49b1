use cargonode::progress::{format_error, format_note, format_status, format_warning};

#[test]
fn test_format_error() {
    let message =
        "Failed to run command\n\nError: Exit code 1\n\nSuggestion: Check the command exists";
    let formatted = format_error(message, false);
    assert!(formatted.contains("error: Failed to run command"));
    assert!(formatted.contains("Error: Exit code 1"));
    assert!(formatted.contains("Suggestion: Check the command exists"));
}

#[test]
fn test_format_warning() {
    let message = "File not found";
    let formatted = format_warning(message, false);
    assert!(formatted.contains("warning: File not found"));
}

#[test]
fn test_format_note() {
    let message = "Using cached version";
    let formatted = format_note(message, false);
    assert!(formatted.contains("note: Using cached version"));
}

#[test]
fn test_format_status() {
    let status = "Running";
    let message = "build command";
    let formatted = format_status(status, message, false);
    assert!(formatted.contains("Running: build command"));
}

#[test]
fn test_format_error_sections() {
    let message = "Command failed\n\nError: Exit code 1\n\nDetails: Process terminated\n\nSuggestion: Check permissions";
    let formatted = format_error(message, false);
    assert!(formatted.contains("error: Command failed"));
    assert!(formatted.contains("Error: Exit code 1"));
    assert!(formatted.contains("Details: Process terminated"));
    assert!(formatted.contains("Suggestion: Check permissions"));
}
