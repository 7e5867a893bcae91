use seogi::domain::migrate::{content_based_id, convert_entry, MigrateSummary, MigratedRecord};
use seogi::domain::value::Ms;
use seogi::models::{LogEntry, ToolInfo};

fn make_entry(tool_name: &str, failed: Option<bool>) -> LogEntry {
    LogEntry {
        timestamp: "2026-04-07T11:00:00.000Z".to_string(),
        session_id: "sess-1".to_string(),
        project: "test".to_string(),
        project_path: "/test".to_string(),
        role: "assistant".to_string(),
        content: None,
        tool: Some(ToolInfo {
            name: tool_name.to_string(),
            duration_ms: Some(150),
            input: Some(r#"{"command":"ls"}"#.to_string()),
            failed,
            error: if failed == Some(true) {
                Some("exit 1".to_string())
            } else {
                None
            },
        }),
    }
}

#[test]
fn test_convert_tool_use() {
    let entry = make_entry("Bash", None);
    let result = convert_entry(&entry).unwrap();
    match result {
        MigratedRecord::Use(tu) => {
            assert_eq!(tu.tool_name(), "Bash");
            assert_eq!(tu.session_id().as_str(), "sess-1");
            assert_eq!(tu.tool_input(), r#"{"command":"ls"}"#);
            assert_eq!(tu.duration(), Ms::new(150));
            assert!(tu.timestamp().value() > 0);
        }
        MigratedRecord::Failure(_) => panic!("expected Use"),
    }
}

#[test]
fn test_convert_tool_failure() {
    let entry = make_entry("Bash", Some(true));
    let result = convert_entry(&entry).unwrap();
    match result {
        MigratedRecord::Failure(tf) => {
            assert_eq!(tf.tool_name(), "Bash");
            assert_eq!(tf.error(), "exit 1");
        }
        MigratedRecord::Use(_) => panic!("expected Failure"),
    }
}

#[test]
fn test_convert_no_tool() {
    let entry = LogEntry {
        timestamp: "2026-04-07T11:00:00.000Z".to_string(),
        session_id: "sess-1".to_string(),
        project: "test".to_string(),
        project_path: "/test".to_string(),
        role: "system".to_string(),
        content: Some("[stop] end_turn".to_string()),
        tool: None,
    };
    assert!(convert_entry(&entry).is_none());
}

#[test]
fn test_content_based_id_deterministic() {
    let id1 = content_based_id("sess-1", "2026-04-07T11:00:00Z", "Bash");
    let id2 = content_based_id("sess-1", "2026-04-07T11:00:00Z", "Bash");
    assert_eq!(id1, id2);
    assert_eq!(id1.len(), 32);
    assert!(id1.chars().all(|c| c.is_ascii_hexdigit()));
}

#[test]
fn test_duration_none_fallback() {
    let mut entry = make_entry("Read", None);
    entry.tool.as_mut().unwrap().duration_ms = None;
    let result = convert_entry(&entry).unwrap();
    match result {
        MigratedRecord::Use(tu) => assert_eq!(tu.duration(), Ms::zero()),
        MigratedRecord::Failure(_) => panic!("expected Use"),
    }
}

// Own cases.

#[test]
fn content_id_is_sha256_prefix_of_concatenation() {
    // SHA-256("abc") = ba7816bf8f01cfea414140de5dae2223b00361a396177a9cb410ff61f20015ad
    assert_eq!(content_based_id("a", "b", "c"), "ba7816bf8f01cfea414140de5dae2223");
    assert_ne!(
        content_based_id("sess-1", "t", "Bash"),
        content_based_id("sess-1", "t", "Read")
    );
}

#[test]
fn converted_record_carries_entry_fields() {
    let entry = make_entry("Bash", None);
    match convert_entry(&entry).unwrap() {
        MigratedRecord::Use(tu) => {
            assert_eq!(
                tu.id(),
                content_based_id("sess-1", "2026-04-07T11:00:00.000Z", "Bash")
            );
            assert_eq!(tu.project(), "test");
            assert_eq!(tu.project_path(), "/test");
            assert_eq!(tu.timestamp().value(), 1_775_559_600_000);
        }
        MigratedRecord::Failure(_) => panic!("expected Use"),
    }
}

#[test]
fn bad_timestamp_is_skipped() {
    let mut entry = make_entry("Bash", None);
    entry.timestamp = "not a time".to_string();
    assert!(convert_entry(&entry).is_none());
}

#[test]
fn failure_without_error_text_is_empty() {
    let mut entry = make_entry("Bash", Some(true));
    entry.tool.as_mut().unwrap().error = None;
    match convert_entry(&entry).unwrap() {
        MigratedRecord::Failure(tf) => assert_eq!(tf.error(), ""),
        MigratedRecord::Use(_) => panic!("expected Failure"),
    }
}

#[test]
fn summary_starts_at_zero() {
    let s = MigrateSummary::default();
    assert_eq!((s.tool_uses, s.tool_failures, s.skipped, s.files), (0, 0, 0, 0));
}
