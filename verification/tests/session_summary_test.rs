use seogi::analyzers::session_summary::{
    calc_bash_counts, calc_doom_loop_count, calc_edit_files, calc_invoked, calc_read_before_edit,
    calc_session_duration, compute_metrics, compute_metrics_at,
};
use seogi::domain::metrics::{LINT_PATTERN, TEST_PATTERN, TYPECHECK_PATTERN};
use seogi::models::{LogEntry, ToolInfo};

fn json_member(key: &str, value: &str) -> String {
    format!(
        "{{{}:{}}}",
        serde_json::to_string(key).unwrap(),
        serde_json::to_string(value).unwrap()
    )
}

fn make_entry(tool_name: &str, timestamp: &str) -> LogEntry {
    LogEntry {
        timestamp: timestamp.to_string(),
        session_id: "s1".to_string(),
        project: "test".to_string(),
        project_path: "/test".to_string(),
        role: "assistant".to_string(),
        content: None,
        tool: Some(ToolInfo {
            name: tool_name.to_string(),
            duration_ms: Some(0),
            input: None,
            failed: None,
            error: None,
        }),
    }
}

fn make_bash_entry(command: &str, timestamp: &str) -> LogEntry {
    LogEntry {
        timestamp: timestamp.to_string(),
        session_id: "s1".to_string(),
        project: "test".to_string(),
        project_path: "/test".to_string(),
        role: "assistant".to_string(),
        content: None,
        tool: Some(ToolInfo {
            name: "Bash".to_string(),
            duration_ms: Some(0),
            input: Some(json_member("command", command)),
            failed: None,
            error: None,
        }),
    }
}

fn make_edit_entry(fp: &str, timestamp: &str) -> LogEntry {
    LogEntry {
        timestamp: timestamp.to_string(),
        session_id: "s1".to_string(),
        project: "test".to_string(),
        project_path: "/test".to_string(),
        role: "assistant".to_string(),
        content: None,
        tool: Some(ToolInfo {
            name: "Edit".to_string(),
            duration_ms: Some(0),
            input: Some(json_member("file_path", fp)),
            failed: None,
            error: None,
        }),
    }
}

fn make_failed_bash(timestamp: &str) -> LogEntry {
    LogEntry {
        timestamp: timestamp.to_string(),
        session_id: "s1".to_string(),
        project: "test".to_string(),
        project_path: "/test".to_string(),
        role: "assistant".to_string(),
        content: None,
        tool: Some(ToolInfo {
            name: "Bash".to_string(),
            duration_ms: None,
            input: None,
            failed: Some(true),
            error: Some("exit code 1".to_string()),
        }),
    }
}

#[test]
fn session_summary_test_read_before_edit_ratio() {
    let entries = [
        make_entry("Read", "2026-04-07T11:00:00.000Z"),
        make_entry("Grep", "2026-04-07T11:01:00.000Z"),
        make_entry("Read", "2026-04-07T11:02:00.000Z"),
        make_edit_entry("a.rs", "2026-04-07T11:03:00.000Z"),
    ];
    let refs: Vec<&LogEntry> = entries.iter().collect();
    assert_eq!(calc_read_before_edit(&refs), 3);
}

#[test]
fn session_summary_test_read_before_edit_no_edit() {
    let entries = [
        make_entry("Read", "2026-04-07T11:00:00.000Z"),
        make_entry("Glob", "2026-04-07T11:01:00.000Z"),
        make_entry("Read", "2026-04-07T11:02:00.000Z"),
    ];
    let refs: Vec<&LogEntry> = entries.iter().collect();
    assert_eq!(calc_read_before_edit(&refs), 3);
}

#[test]
fn test_doom_loop_count_above_threshold() {
    let mut entries = Vec::new();
    for i in 0..6 {
        entries.push(make_edit_entry(
            "same.rs",
            &format!("2026-04-07T11:{i:02}:00.000Z"),
        ));
    }
    let refs: Vec<&LogEntry> = entries.iter().collect();
    assert_eq!(calc_doom_loop_count(&refs), 1);
}

#[test]
fn test_doom_loop_count_below_threshold() {
    let mut entries = Vec::new();
    for i in 0..4 {
        entries.push(make_edit_entry(
            "same.rs",
            &format!("2026-04-07T11:{i:02}:00.000Z"),
        ));
    }
    let refs: Vec<&LogEntry> = entries.iter().collect();
    assert_eq!(calc_doom_loop_count(&refs), 0);
}

#[test]
fn session_summary_test_test_invoked_true() {
    let entries = [make_bash_entry(
        "npm run pytest",
        "2026-04-07T11:00:00.000Z",
    )];
    let refs: Vec<&LogEntry> = entries.iter().collect();
    assert!(calc_invoked(&refs, TEST_PATTERN));
}

#[test]
fn session_summary_test_test_invoked_false() {
    let entries = [make_bash_entry("ls -la", "2026-04-07T11:00:00.000Z")];
    let refs: Vec<&LogEntry> = entries.iter().collect();
    assert!(!calc_invoked(&refs, TEST_PATTERN));
}

#[test]
fn session_summary_test_lint_invoked() {
    let entries = [make_bash_entry("npx eslint .", "2026-04-07T11:00:00.000Z")];
    let refs: Vec<&LogEntry> = entries.iter().collect();
    assert!(calc_invoked(&refs, LINT_PATTERN));
}

#[test]
fn session_summary_test_typecheck_invoked() {
    let entries = [make_bash_entry(
        "npx tsc --noEmit",
        "2026-04-07T11:00:00.000Z",
    )];
    let refs: Vec<&LogEntry> = entries.iter().collect();
    assert!(calc_invoked(&refs, TYPECHECK_PATTERN));
}

#[test]
fn session_summary_test_edit_files() {
    let entries = [
        make_edit_entry("a.rs", "2026-04-07T11:00:00.000Z"),
        make_edit_entry("b.rs", "2026-04-07T11:01:00.000Z"),
        make_edit_entry("a.rs", "2026-04-07T11:02:00.000Z"),
    ];
    let refs: Vec<&LogEntry> = entries.iter().collect();
    let files = calc_edit_files(&refs);
    assert_eq!(files, vec!["a.rs", "b.rs"]);
}

#[test]
fn session_summary_test_session_duration() {
    let entries = vec![
        make_entry("Read", "2026-04-07T11:00:00.000Z"),
        make_entry("Edit", "2026-04-07T11:05:00.000Z"),
    ];
    let duration = calc_session_duration(&entries);
    assert_eq!(duration, 300_000);
}

#[test]
fn test_session_duration_single_entry() {
    let entries = vec![make_entry("Read", "2026-04-07T11:00:00.000Z")];
    assert_eq!(calc_session_duration(&entries), 0);
}

#[test]
fn session_summary_test_empty_session() {
    let result = compute_metrics(&[], "s1", "test");
    assert_eq!(result.metrics.read_before_edit_ratio, 0);
    assert_eq!(result.metrics.doom_loop_count, 0);
    assert!(!result.metrics.test_invoked);
    assert_eq!(result.metrics.tool_call_count, 0);
    assert_eq!(result.metrics.session_duration_ms, 0);
    assert!(result.metrics.edit_files.is_empty());
    assert_eq!(result.metrics.bash_call_count, 0);
}

// Own cases.

#[test]
fn bash_counts_count_failed_shell_calls() {
    let mut entries: Vec<LogEntry> = (0..8)
        .map(|i| make_bash_entry("ls", &format!("2026-04-07T11:0{i}:00.000Z")))
        .collect();
    entries.push(make_failed_bash("2026-04-07T11:08:00.000Z"));
    entries.push(make_failed_bash("2026-04-07T11:09:00.000Z"));
    assert_eq!(calc_bash_counts(&entries), (10, 2));
    assert_eq!(calc_bash_counts(&[make_entry("Read", "2026-04-07T11:00:00.000Z")]), (0, 0));
}

#[test]
fn duration_with_unparsable_stamp_is_zero() {
    let entries = vec![
        make_entry("Read", "yesterday"),
        make_entry("Edit", "2026-04-07T11:05:00.000Z"),
    ];
    assert_eq!(calc_session_duration(&entries), 0);
}

#[test]
fn duration_rounds_toward_zero() {
    let entries = vec![
        make_entry("Read", "2026-04-07T11:00:00.0005Z"),
        make_entry("Edit", "2026-04-07T11:00:00.0014Z"),
    ];
    assert_eq!(calc_session_duration(&entries), 0);
}

#[test]
fn metrics_only_count_tool_entries() {
    let mut plain = make_entry("Read", "2026-04-07T11:00:00.000Z");
    plain.tool = None;
    let entries = vec![
        plain,
        make_entry("Read", "2026-04-07T11:01:00.000Z"),
        make_bash_entry("cargo build", "2026-04-07T11:02:00.000Z"),
    ];
    let r = compute_metrics_at(&entries, "s1", "p", "stamp".to_string());
    assert_eq!(r.timestamp, "stamp");
    assert_eq!(r.session_id, "s1");
    assert_eq!(r.project, "p");
    assert_eq!(r.metrics.tool_call_count, 2);
    assert_eq!(r.metrics.read_before_edit_ratio, 1);
    assert!(r.metrics.build_invoked);
    assert!(!r.metrics.test_invoked);
    assert_eq!(r.metrics.session_duration_ms, 120_000);
}
