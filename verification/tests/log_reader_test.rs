use seogi::log_reader::{compact_layout, compact_records};
use seogi::log_reader::session_entries;
use seogi::models::LogEntry;

fn entry(session: &str, ts: &str, role: &str) -> LogEntry {
    LogEntry {
        timestamp: ts.to_string(),
        session_id: session.to_string(),
        project: "test".to_string(),
        project_path: "/test".to_string(),
        role: role.to_string(),
        content: None,
        tool: None,
    }
}

#[test]
fn session_entries_keep_one_session() {
    let entries = vec![
        entry("a", "2026-04-07T11:00:00.000Z", "1"),
        entry("b", "2026-04-07T11:01:00.000Z", "2"),
        entry("a", "2026-04-07T11:02:00.000Z", "3"),
    ];
    let got = session_entries(entries, "a");
    assert_eq!(got.len(), 2);
    assert!(got.iter().all(|e| e.session_id == "a"));
}

#[test]
fn session_entries_in_time_order() {
    let entries = vec![
        entry("a", "2026-04-07T11:05:00.000Z", "late"),
        entry("a", "2026-04-07T11:00:00.000Z", "early"),
        entry("a", "2026-04-07T11:05:00.000Z", "late-2"),
        entry("a", "2026-04-07T11:01:00.000Z", "mid"),
    ];
    let got: Vec<String> = session_entries(entries, "a")
        .into_iter()
        .map(|e| e.role)
        .collect();
    assert_eq!(got, vec!["early", "mid", "late", "late-2"]);
}

#[test]
fn no_entries_of_other_sessions() {
    assert!(session_entries(vec![entry("x", "1", "r")], "y").is_empty());
    assert!(session_entries(Vec::new(), "y").is_empty());
}

#[test]
fn compact_layout_one_record_per_line() {
    assert!(compact_layout("{\"a\":1}\n{\"a\":2}\n"));
    assert!(compact_layout("  \n{\"a\":1}\r\n{\"a\":2}"));
    assert!(!compact_layout("{\n  \"a\": 1\n}\n"));
    assert!(!compact_layout(""));
    assert!(!compact_layout("   \n  "));
    assert!(!compact_layout("{"));
}

#[test]
fn compact_records_trimmed_lines_without_blanks() {
    assert_eq!(
        compact_records("\n {\"a\":1} \r\n\n  {\"a\":2}\n\n"),
        vec!["{\"a\":1}".to_string(), "{\"a\":2}".to_string()]
    );
    assert!(compact_records("  \n ").is_empty());
    assert_eq!(compact_records("{}"), vec!["{}".to_string()]);
}
