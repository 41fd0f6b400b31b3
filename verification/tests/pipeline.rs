use workspace_pipeline::indexer::{build_and_persist_index, build_index, serialize_workspace_index, IndexStore};
use workspace_pipeline::jsontext::escape_json;
use workspace_pipeline::logger::{
    format_plain_line, format_timing_line, make_execution_record, parse_timing_line,
    ExecutionLog, PlainTimingLog,
};
use workspace_pipeline::model::{EntryKind, ScannedEntry, WorkspaceIndex};
use workspace_pipeline::provenance::{get_git_commit_hash, resolve_commit};

fn entry(name: &str, kind: EntryKind) -> ScannedEntry {
    ScannedEntry { name: String::from(name), kind }
}

#[test]
fn timing_line_exact_values() {
    assert_eq!(format_timing_line(0), "0.000000");
    assert_eq!(format_timing_line(1), "0.000001");
    assert_eq!(format_timing_line(1_500_000), "1.500000");
    assert_eq!(format_timing_line(123_456_789), "123.456789");
    assert_eq!(format_timing_line(u64::MAX), "18446744073709.551615");
    assert_eq!(format_plain_line(2_000_001), "2.000001\n");
}

#[test]
fn timing_line_round_trip() {
    for m in [0u64, 1, 999_999, 1_000_000, 123_456_789, u64::MAX] {
        let line = format_timing_line(m);
        assert_eq!(parse_timing_line(&line), Some(m));
    }
}

#[test]
fn parse_rejects_malformed_lines() {
    assert_eq!(parse_timing_line(""), None);
    assert_eq!(parse_timing_line("not a number"), None);
    assert_eq!(parse_timing_line("1.5"), None);
    assert_eq!(parse_timing_line("1,500000"), None);
    assert_eq!(parse_timing_line("1.50000a"), None);
}

#[test]
fn append_then_read_last_line() {
    let mut log = PlainTimingLog::new();
    log.append_plain_timing(42);
    log.append_plain_timing(1_500_000);
    let last = log.content.lines().last().unwrap();
    assert_eq!(parse_timing_line(last), Some(1_500_000));
}

#[test]
fn append_is_monotonic() {
    let mut log = PlainTimingLog::new();
    log.append_plain_timing(7);
    let before = log.content.clone();
    let lines_before = log.content.lines().count();
    log.append_plain_timing(8);
    assert!(log.content.starts_with(&before));
    assert_eq!(log.content.lines().count(), lines_before + 1);
}

#[test]
fn index_keeps_only_regular_files() {
    let entries = vec![
        entry("a.txt", EntryKind::RegularFile),
        entry("sub", EntryKind::Directory),
        entry("b.txt", EntryKind::RegularFile),
        entry("pipe", EntryKind::Other),
    ];
    let idx = build_index(entries, String::from("Rust-Macros"), Some(get_git_commit_hash()));
    let names: Vec<&str> = idx.files.iter().map(|f| f.name.as_str()).collect();
    assert_eq!(names, vec!["a.txt", "b.txt"]);
    assert_eq!(idx.project_name, "Rust-Macros");
    assert_eq!(idx.last_commit, "dummy_commit_hash");
}

#[test]
fn two_files_one_subdirectory() {
    let entries = vec![
        entry("a.txt", EntryKind::RegularFile),
        entry("b.txt", EntryKind::RegularFile),
        entry("sub", EntryKind::Directory),
    ];
    let idx = build_index(entries, String::from("Rust-Macros"), None);
    let names: Vec<&str> = idx.files.iter().map(|f| f.name.as_str()).collect();
    assert_eq!(names, vec!["a.txt", "b.txt"]);
}

#[test]
fn empty_directory_gives_empty_manifest() {
    let idx = build_index(Vec::new(), String::from("Rust-Macros"), Some(String::from("abc123")));
    assert!(idx.files.is_empty());
    assert_eq!(idx.project_name, "Rust-Macros");
    assert_eq!(idx.last_commit, "abc123");
}

#[test]
fn failed_resolver_yields_sentinel() {
    let idx = build_index(Vec::new(), String::from("p"), None);
    assert_eq!(idx.last_commit, "unknown");
    let idx2 = build_index(Vec::new(), String::from("p"), Some(String::new()));
    assert_eq!(idx2.last_commit, "unknown");
    assert_eq!(resolve_commit(None), "unknown");
    assert_eq!(resolve_commit(Some(String::from("feed"))), "feed");
}

#[test]
fn persist_overwrites_prior_document() {
    let mut store = IndexStore::new();
    let entries = vec![entry("a.txt", EntryKind::RegularFile)];
    let idx = build_index(entries, String::from("p"), None);
    let doc1 = store.persist_index(&idx);
    let len1 = store.content.len();
    let doc2 = store.persist_index(&idx);
    assert_eq!(doc1, doc2);
    assert_eq!(store.content, doc2);
    assert_eq!(store.content.len(), len1);
}

#[test]
fn build_and_persist_end_to_end() {
    let mut store = IndexStore::new();
    let entries = vec![
        entry("a.txt", EntryKind::RegularFile),
        entry("b.txt", EntryKind::RegularFile),
        entry("sub", EntryKind::Directory),
    ];
    let (idx, doc) = build_and_persist_index(&mut store, entries, String::from("Rust-Macros"), None);
    assert_eq!(idx.files.len(), 2);
    assert_eq!(store.content, doc);
    assert!(doc.ends_with('\n'));
}

fn parse_manifest(idx: &WorkspaceIndex) -> serde_json::Value {
    let text = serialize_workspace_index(idx);
    serde_json::from_str(&text).expect("manifest must be valid JSON")
}

#[test]
fn manifest_is_valid_json() {
    let entries = vec![
        entry("a.txt", EntryKind::RegularFile),
        entry("b.txt", EntryKind::RegularFile),
        entry("sub", EntryKind::Directory),
    ];
    let idx = build_index(entries, String::from("Rust-Macros"), Some(get_git_commit_hash()));
    let v = parse_manifest(&idx);
    assert_eq!(v["project_name"], "Rust-Macros");
    assert_eq!(v["last_commit"], "dummy_commit_hash");
    let files = v["files"].as_array().unwrap();
    assert_eq!(files.len(), 2);
    assert_eq!(files[0]["name"], "a.txt");
    assert_eq!(files[1]["name"], "b.txt");
}

#[test]
fn manifest_escapes_hostile_names() {
    let wild = "a\"b\\c\nd\te\rf\u{1}g";
    let entries = vec![entry(wild, EntryKind::RegularFile)];
    let idx = build_index(entries, String::from("p\"q"), Some(String::from("h\\h")));
    let v = parse_manifest(&idx);
    assert_eq!(v["project_name"], "p\"q");
    assert_eq!(v["last_commit"], "h\\h");
    assert_eq!(v["files"][0]["name"], wild);
}

#[test]
fn escape_json_exact() {
    assert_eq!(escape_json("plain"), "plain");
    assert_eq!(escape_json("a\"b\\c\nd"), "a\\\"b\\\\c\\nd");
    assert_eq!(escape_json("\t\r\u{1}\u{1f}"), "\\t\\r\\u0001\\u001f");
}

#[test]
fn execution_record_line_is_valid_json() {
    let mut log = ExecutionLog::new();
    let rec = make_execution_record(1_500_000, Some(get_git_commit_hash()));
    assert!(!rec.timestamp.is_empty());
    let line = log.append_execution_record(&rec);
    assert!(line.ends_with('\n'));
    let v: serde_json::Value = serde_json::from_str(line.trim_end()).unwrap();
    assert_eq!(v["execution_time"], serde_json::Value::from(1.5f64));
    assert_eq!(v["commit_hash"], "dummy_commit_hash");
    assert!(!v["timestamp"].as_str().unwrap().is_empty());
    let line2 = log.append_execution_record(&rec);
    assert_eq!(log.content, format!("{line}{line2}"));
}

#[test]
fn commit_hash_placeholder() {
    assert_eq!(get_git_commit_hash(), "dummy_commit_hash");
}
