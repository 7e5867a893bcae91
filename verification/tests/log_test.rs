use seogi::domain::log::{
    event_from_hook, extract_project_from_cwd, use_from_hook, SystemEvent, ToolFailure, ToolUse,
};
use seogi::domain::value::{Ms, SessionId, Timestamp};

fn sample_tool_use() -> ToolUse {
    ToolUse::new(
        "abc123".to_string(),
        SessionId::new("sess-1"),
        "seogi".to_string(),
        "/Users/kim/projects/seogi".to_string(),
        "Bash".to_string(),
        r#"{"command":"ls"}"#.to_string(),
        Ms::zero(),
        Timestamp::new(1_713_000_000_000),
    )
}

#[test]
fn tool_use_creation_and_getters() {
    let tu = sample_tool_use();

    assert_eq!(tu.id(), "abc123");
    assert_eq!(tu.session_id().as_str(), "sess-1");
    assert_eq!(tu.project(), "seogi");
    assert_eq!(tu.project_path(), "/Users/kim/projects/seogi");
    assert_eq!(tu.tool_name(), "Bash");
    assert_eq!(tu.tool_input(), r#"{"command":"ls"}"#);
    assert_eq!(tu.duration(), Ms::zero());
    assert_eq!(tu.timestamp(), Timestamp::new(1_713_000_000_000));

    assert_eq!(tu.clone(), tu);
}

#[test]
fn extract_project_from_normal_path() {
    assert_eq!(
        extract_project_from_cwd("/Users/kim/projects/seogi"),
        "seogi"
    );
    assert_eq!(extract_project_from_cwd("/home/user/my-app"), "my-app");
}

#[test]
fn extract_project_from_root_path() {
    assert_eq!(extract_project_from_cwd("/"), "unknown");
}

#[test]
fn tool_use_display() {
    let tu = sample_tool_use();
    assert_eq!(tu.to_string(), "[sess-1] Bash (abc123)");
}

fn sample_tool_failure() -> ToolFailure {
    ToolFailure::new(
        "fail123".to_string(),
        SessionId::new("sess-1"),
        "seogi".to_string(),
        "/Users/kim/projects/seogi".to_string(),
        "Bash".to_string(),
        "Permission denied".to_string(),
        Timestamp::new(1_713_000_000_000),
    )
}

#[test]
fn tool_failure_creation_and_getters() {
    let tf = sample_tool_failure();

    assert_eq!(tf.id(), "fail123");
    assert_eq!(tf.session_id().as_str(), "sess-1");
    assert_eq!(tf.project(), "seogi");
    assert_eq!(tf.project_path(), "/Users/kim/projects/seogi");
    assert_eq!(tf.tool_name(), "Bash");
    assert_eq!(tf.error(), "Permission denied");
    assert_eq!(tf.timestamp(), Timestamp::new(1_713_000_000_000));

    assert_eq!(tf.clone(), tf);
}

#[test]
fn tool_failure_display() {
    let tf = sample_tool_failure();
    assert_eq!(tf.to_string(), "[sess-1] Bash FAILED (fail123)");
}

fn sample_system_event() -> SystemEvent {
    SystemEvent::new(
        "evt123".to_string(),
        SessionId::new("sess-1"),
        "seogi".to_string(),
        "/Users/kim/projects/seogi".to_string(),
        "Notification".to_string(),
        "Permission required".to_string(),
        Timestamp::new(1_713_000_000_000),
    )
}

#[test]
fn system_event_creation_and_getters() {
    let se = sample_system_event();

    assert_eq!(se.id(), "evt123");
    assert_eq!(se.session_id().as_str(), "sess-1");
    assert_eq!(se.project(), "seogi");
    assert_eq!(se.project_path(), "/Users/kim/projects/seogi");
    assert_eq!(se.event_type(), "Notification");
    assert_eq!(se.content(), "Permission required");
    assert_eq!(se.timestamp(), Timestamp::new(1_713_000_000_000));

    assert_eq!(se.clone(), se);
}

#[test]
fn system_event_display() {
    let se = sample_system_event();
    assert_eq!(se.to_string(), "[sess-1] Notification (evt123)");
}

// Own cases: the project name agrees with `Path::file_name`.

#[test]
fn extract_project_matches_path_file_name() {
    let cases = [
        "", "/", "//", ".", "..", "./", "a", "a/", "a//", "a/.", "a/./", "a/..", "/a/b/c",
        "/a/b/c/", "/a/b/./", "../x", "x/../y", "./x", "/home/user/.config", "a/.../", "a/ b",
    ];
    for c in cases {
        let expected = std::path::Path::new(c)
            .file_name()
            .map_or_else(|| "unknown".to_string(), |n| n.to_string_lossy().into_owned());
        assert_eq!(extract_project_from_cwd(c), expected, "path {c:?}");
    }
}

#[test]
fn extract_project_parent_dir_is_unknown() {
    assert_eq!(extract_project_from_cwd("/home/user/.."), "unknown");
    assert_eq!(extract_project_from_cwd("/home/user/."), "user");
}

#[test]
fn hook_call_duration_runs_from_recorded_start() {
    let u = use_from_hook(
        "id1".to_string(),
        "sess-1",
        "Bash".to_string(),
        "{\"command\":\"ls\"}".to_string(),
        "/Users/kim/projects/seogi".to_string(),
        Some(Timestamp::new(1_000)),
        Timestamp::new(1_250),
    );
    assert_eq!(u.duration().value(), 250);
    assert_eq!(u.timestamp().value(), 1_250);
    assert_eq!(u.project(), "seogi");
    assert_eq!(u.project_path(), "/Users/kim/projects/seogi");
    assert_eq!(u.session_id().as_str(), "sess-1");
    assert_eq!(u.tool_input(), "{\"command\":\"ls\"}");
}

#[test]
fn hook_call_without_start_takes_no_time() {
    let u = use_from_hook(
        "id2".to_string(),
        "sess-1",
        "Bash".to_string(),
        "{}".to_string(),
        "/tmp/x".to_string(),
        None,
        Timestamp::new(5_000),
    );
    assert_eq!(u.duration().value(), 0);
}

#[test]
fn hook_notification_becomes_event() {
    let e = event_from_hook(
        "id3".to_string(),
        "sess-notif-123",
        "Notification".to_string(),
        "Permission required for Bash".to_string(),
        "/Users/kim/projects/seogi".to_string(),
        Timestamp::new(7),
    );
    assert_eq!(e.session_id().as_str(), "sess-notif-123");
    assert_eq!(e.event_type(), "Notification");
    assert_eq!(e.content(), "Permission required for Bash");
    assert_eq!(e.project(), "seogi");
    assert_eq!(e.project_path(), "/Users/kim/projects/seogi");
}
