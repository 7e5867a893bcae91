use seogi::domain::log::{ToolFailure, ToolUse};
use seogi::domain::metrics::{
    bash_command, calc_doom_loop_count, calc_edit_files, calc_invoked, calc_read_before_edit,
    calc_session_duration, calculate, file_path, BUILD_PATTERN, LINT_PATTERN, TEST_PATTERN,
    TYPECHECK_PATTERN,
};
use seogi::domain::value::{Ms, SessionId, Timestamp};

fn make_tool_use(name: &str, input: &str, ts: i64) -> ToolUse {
    ToolUse::new(
        format!("id-{ts}"),
        SessionId::new("sess-1"),
        "test".to_string(),
        "/test".to_string(),
        name.to_string(),
        input.to_string(),
        Ms::zero(),
        Timestamp::new(ts),
    )
}

fn make_failure(name: &str, ts: i64) -> ToolFailure {
    ToolFailure::new(
        format!("fail-{ts}"),
        SessionId::new("sess-1"),
        "test".to_string(),
        "/test".to_string(),
        name.to_string(),
        "error".to_string(),
        Timestamp::new(ts),
    )
}

#[test]
fn metrics_test_read_before_edit_ratio() {
    let uses = vec![
        make_tool_use("Read", "{}", 1000),
        make_tool_use("Grep", "{}", 2000),
        make_tool_use("Read", "{}", 3000),
        make_tool_use("Edit", r#"{"file_path":"a.rs"}"#, 4000),
    ];
    assert_eq!(calc_read_before_edit(&uses), 3);
}

#[test]
fn metrics_test_read_before_edit_no_edit() {
    let uses = vec![
        make_tool_use("Read", "{}", 1000),
        make_tool_use("Glob", "{}", 2000),
        make_tool_use("Read", "{}", 3000),
    ];
    assert_eq!(calc_read_before_edit(&uses), 3);
}

#[test]
fn test_doom_loop_above_threshold() {
    let uses: Vec<_> = (0..6)
        .map(|i| make_tool_use("Edit", r#"{"file_path":"same.rs"}"#, 1000 + i))
        .collect();
    assert_eq!(calc_doom_loop_count(&uses), 1);
}

#[test]
fn test_doom_loop_below_threshold() {
    let uses: Vec<_> = (0..4)
        .map(|i| make_tool_use("Edit", r#"{"file_path":"same.rs"}"#, 1000 + i))
        .collect();
    assert_eq!(calc_doom_loop_count(&uses), 0);
}

#[test]
fn metrics_test_test_invoked_true() {
    let uses = vec![make_tool_use("Bash", r#"{"command":"cargo pytest"}"#, 1000)];
    assert!(calc_invoked(&uses, TEST_PATTERN));
}

#[test]
fn metrics_test_test_invoked_false() {
    let uses = vec![make_tool_use("Bash", r#"{"command":"ls -la"}"#, 1000)];
    assert!(!calc_invoked(&uses, TEST_PATTERN));
}

#[test]
fn test_build_invoked() {
    let uses = vec![make_tool_use("Bash", r#"{"command":"npx webpack"}"#, 1000)];
    assert!(calc_invoked(&uses, BUILD_PATTERN));
}

#[test]
fn metrics_test_lint_invoked() {
    let uses = vec![make_tool_use("Bash", r#"{"command":"npx eslint ."}"#, 1000)];
    assert!(calc_invoked(&uses, LINT_PATTERN));
}

#[test]
fn metrics_test_typecheck_invoked() {
    let uses = vec![make_tool_use(
        "Bash",
        r#"{"command":"npx tsc --noEmit"}"#,
        1000,
    )];
    assert!(calc_invoked(&uses, TYPECHECK_PATTERN));
}

#[test]
fn test_tool_call_count() {
    let uses: Vec<_> = (0..5)
        .map(|i| make_tool_use("Read", "{}", 1000 + i))
        .collect();
    let m = calculate(SessionId::new("s1"), &uses, &[]);
    assert_eq!(m.tool_call_count(), 5);
}

#[test]
fn metrics_test_session_duration() {
    let uses = vec![
        make_tool_use("Read", "{}", 1000),
        make_tool_use("Edit", r#"{"file_path":"a.rs"}"#, 5000),
    ];
    assert_eq!(calc_session_duration(&uses), Ms::new(4000));
}

#[test]
fn test_session_duration_single() {
    let uses = vec![make_tool_use("Read", "{}", 1000)];
    assert_eq!(calc_session_duration(&uses), Ms::zero());
}

#[test]
fn metrics_test_edit_files() {
    let uses = vec![
        make_tool_use("Edit", r#"{"file_path":"a.rs"}"#, 1000),
        make_tool_use("Edit", r#"{"file_path":"b.rs"}"#, 2000),
        make_tool_use("Edit", r#"{"file_path":"a.rs"}"#, 3000),
    ];
    assert_eq!(calc_edit_files(&uses), vec!["a.rs", "b.rs"]);
}

#[test]
fn metrics_test_empty_session() {
    let m = calculate(SessionId::new("s1"), &[], &[]);
    assert_eq!(m.read_before_edit_ratio(), 0);
    assert_eq!(m.doom_loop_count(), 0);
    assert!(!m.test_invoked());
    assert!(!m.build_invoked());
    assert!(!m.lint_invoked());
    assert!(!m.typecheck_invoked());
    assert_eq!(m.tool_call_count(), 0);
    assert_eq!(m.session_duration().value(), 0);
    assert!(m.edit_files().is_empty());
    assert_eq!(m.bash_call_count(), 0);
    assert_eq!(m.bash_failure_count(), 0);
}

#[test]
fn test_bash_missing_command_key() {
    let uses = vec![
        make_tool_use("Bash", r#"{"not_command":"ls"}"#, 1000),
        make_tool_use("Bash", r#"{"command":"cargo test"}"#, 2000),
    ];
    assert!(calc_invoked(&uses, TEST_PATTERN));
    let uses_only_missing = vec![make_tool_use("Bash", r#"{"not_command":"ls"}"#, 1000)];
    assert!(!calc_invoked(&uses_only_missing, TEST_PATTERN));
}

// Own cases.

#[test]
fn bash_counts_cover_error_rate_inputs() {
    let uses: Vec<_> = (0..10)
        .map(|i| make_tool_use("Bash", r#"{"command":"ls"}"#, 1000 + i))
        .collect();
    let failures = vec![
        make_failure("Bash", 1000),
        make_failure("Bash", 1001),
        make_failure("Read", 1002),
    ];
    let m = calculate(SessionId::new("s1"), &uses, &failures);
    assert_eq!(m.bash_call_count(), 10);
    assert_eq!(m.bash_failure_count(), 2);
}

#[test]
fn json_members_are_read_from_input() {
    let u = make_tool_use("Edit", r#"{"file_path":"src/x.rs","command":"echo"}"#, 1);
    assert_eq!(file_path(&u), Some("src/x.rs".to_string()));
    assert_eq!(bash_command(&u), "echo");
    let bad = make_tool_use("Edit", "not json", 1);
    assert_eq!(file_path(&bad), None);
    assert_eq!(bash_command(&bad), "");
    let number = make_tool_use("Edit", r#"{"file_path":3}"#, 1);
    assert_eq!(file_path(&number), None);
}

#[test]
fn edit_files_sorted_and_include_writes() {
    let uses = vec![
        make_tool_use("Write", r#"{"file_path":"z.rs"}"#, 1),
        make_tool_use("Edit", r#"{"file_path":"b.rs"}"#, 2),
        make_tool_use("Read", r#"{"file_path":"a.rs"}"#, 3),
        make_tool_use("Edit", r#"{"file_path":"B.rs"}"#, 4),
        make_tool_use("Write", r#"{"file_path":"z.rs"}"#, 5),
        make_tool_use("Edit", r#"{"nothing":1}"#, 6),
    ];
    assert_eq!(calc_edit_files(&uses), vec!["B.rs", "b.rs", "z.rs"]);
}

#[test]
fn doom_loops_count_files_not_edits() {
    let mut uses = Vec::new();
    for i in 0..5 {
        uses.push(make_tool_use("Edit", r#"{"file_path":"a.rs"}"#, i));
        uses.push(make_tool_use("Edit", r#"{"file_path":"b.rs"}"#, 100 + i));
        uses.push(make_tool_use("Write", r#"{"file_path":"c.rs"}"#, 200 + i));
    }
    uses.push(make_tool_use("Edit", r#"{"file_path":"d.rs"}"#, 300));
    assert_eq!(calc_doom_loop_count(&uses), 2);
}

#[test]
fn reads_after_first_edit_are_not_counted() {
    let uses = vec![
        make_tool_use("Read", "{}", 1),
        make_tool_use("Write", "{}", 2),
        make_tool_use("Read", "{}", 3),
        make_tool_use("Grep", "{}", 4),
    ];
    assert_eq!(calc_read_before_edit(&uses), 1);
}

#[test]
fn invoked_ignores_non_shell_calls() {
    let uses = vec![make_tool_use("Read", r#"{"command":"pytest"}"#, 1)];
    assert!(!calc_invoked(&uses, TEST_PATTERN));
    let uses = vec![make_tool_use("Bash", r#"{"command":"RUN PyTest now"}"#, 1)];
    assert!(calc_invoked(&uses, TEST_PATTERN));
}
