use cargonode::commands::journal::{clear_cache_message, format_journal_entry, format_timestamp, show_history};
use cargonode::error::Error;
use cargonode::journal::{filter_for_tool, storage_dir_verdict, Journal, JournalEntry};

#[test]
fn test_format_timestamp() {
    let timestamp = 1609459200;
    let formatted = format_timestamp(timestamp);
    assert_eq!(formatted, "2021-01-01 00:00:00");
}

fn entry(tool: &str, code: i32, cached: bool) -> JournalEntry {
    JournalEntry {
        tool_name: tool.to_string(),
        input_hash: format!("{}-hash", tool),
        command: "npm".to_string(),
        args: vec!["run".to_string(), "test".to_string()],
        exit_code: code,
        from_cache: cached,
        timestamp: 1609459200,
    }
}

#[test]
fn journal_keeps_the_most_recent_entries() {
    let journal = Journal::at("/tmp/journal-dir", 3);
    assert_eq!(journal.journal_path(), "/tmp/journal-dir/journal.json");
    assert_eq!(journal.max_entries(), 3);
    let mut entries = Vec::new();
    for i in 0..5 {
        entries = journal.add_entry(entries, entry(&format!("tool-{}", i), 0, false));
    }
    assert_eq!(entries.len(), 3);
    assert_eq!(entries[0].tool_name, "tool-2");
    assert_eq!(entries[1].tool_name, "tool-3");
    assert_eq!(entries[2].tool_name, "tool-4");
}

#[test]
fn journal_limit_zero_means_default() {
    let journal = Journal::at("dir", 0);
    assert_eq!(journal.max_entries(), 1000);
    assert_eq!(journal.journal_path(), "dir/journal.json");
}

#[test]
fn journal_entries_for_tool_keep_order() {
    let journal = Journal::at("dir", 10);
    let entries = vec![entry("a", 0, false), entry("b", 1, false), entry("a", 2, true)];
    let only_a = journal.get_entries_for_tool(entries, "a");
    assert_eq!(only_a.len(), 2);
    assert_eq!(only_a[0].exit_code, 0);
    assert_eq!(only_a[1].exit_code, 2);
    assert!(filter_for_tool(vec![entry("b", 0, false)], "a").is_empty());
}

#[test]
fn journal_create_entry_fills_fields() {
    let e = Journal::create_entry("t", "h", "npm", &["run".to_string()], 3, true);
    assert_eq!(e.tool_name, "t");
    assert_eq!(e.input_hash, "h");
    assert_eq!(e.command, "npm");
    assert_eq!(e.args, vec!["run".to_string()]);
    assert_eq!(e.exit_code, 3);
    assert!(e.from_cache);
    assert!(e.timestamp > 1_600_000_000);
}

#[test]
fn journal_entry_lines() {
    let e = entry("test-tool", 0, false);
    assert_eq!(
        format_journal_entry(&e, false, false),
        "2021-01-01 00:00:00 | SUCCESS  | Tool: test-tool"
    );
    let failed = entry("x", 1, true);
    assert_eq!(
        format_journal_entry(&failed, true, false),
        "2021-01-01 00:00:00 | FAILED (cached) | Tool: x | Command: npm run test | Hash: x-hash"
    );
    assert_eq!(
        format_journal_entry(&failed, false, true),
        "2021-01-01 00:00:00 | \x1b[31mFAILED\x1b[0m \x1b[34m(cached)\x1b[0m | Tool: x"
    );
}

#[test]
fn history_report_lines() {
    let entries = vec![entry("a", 0, false), entry("b", 0, false), entry("a", 1, false)];
    let lines = show_history(None, 2, entries.clone(), false, false);
    assert_eq!(lines.len(), 4);
    assert_eq!(lines[0], "TIMESTAMP | STATUS | TOOL");
    assert!(lines[1].ends_with("Tool: b"));
    assert!(lines[2].ends_with("Tool: a"));
    assert_eq!(lines[3], "note: Showing 2 of 3 entries");

    let lines = show_history(Some("a"), 10, entries.clone(), true, false);
    assert_eq!(lines[0], "TIMESTAMP | STATUS | TOOL | COMMAND | HASH");
    assert_eq!(lines.len(), 4);
    assert_eq!(lines[3], "note: Showing 2 of 2 entries");

    let lines = show_history(Some("zzz"), 10, entries.clone(), false, false);
    assert_eq!(lines, vec!["note: No history found for tool 'zzz'".to_string()]);

    let lines = show_history(None, 10, Vec::new(), false, false);
    assert_eq!(lines, vec!["note: No command history found".to_string()]);
}

#[test]
fn cache_clear_messages() {
    assert_eq!(
        clear_cache_message(Some("lint"), 3, false),
        "Cleared: Cleared 3 cache entries for tool 'lint'"
    );
    assert_eq!(clear_cache_message(None, 0, false), "Cleared: Cleared 0 cache entries");
}

#[test]
fn record_directories_are_created_or_refused() {
    assert_eq!(storage_dir_verdict("Journal", "/j", false, false), Ok(true));
    assert_eq!(storage_dir_verdict("Journal", "/j", true, true), Ok(false));
    assert_eq!(
        storage_dir_verdict("Cache", "/c", true, false),
        Err(Error::Config { message: "Cache path exists but is not a directory: /c".to_string() })
    );
}
