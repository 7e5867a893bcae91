use seogi::domain::project::ProjectPrefix;
use seogi::domain::task::{Label, Task, TaskEvent, CLI_SESSION_ID};
use seogi::domain::value::Timestamp;

#[test]
fn test_label_variant_count() {
    let all = [
        Label::Feature,
        Label::Bug,
        Label::Refactor,
        Label::Chore,
        Label::Docs,
    ];
    assert_eq!(all.len(), 5);
}

#[test]
fn test_label_from_str_valid() {
    assert_eq!("feature".parse::<Label>().unwrap(), Label::Feature);
    assert_eq!("bug".parse::<Label>().unwrap(), Label::Bug);
    assert_eq!("refactor".parse::<Label>().unwrap(), Label::Refactor);
    assert_eq!("chore".parse::<Label>().unwrap(), Label::Chore);
    assert_eq!("docs".parse::<Label>().unwrap(), Label::Docs);
}

#[test]
fn test_label_from_str_invalid() {
    assert!("invalid".parse::<Label>().is_err());
    assert!("".parse::<Label>().is_err());
    assert!("FEATURE".parse::<Label>().is_err());
}

#[test]
fn test_label_as_str() {
    assert_eq!(Label::Feature.as_str(), "feature");
    assert_eq!(Label::Bug.as_str(), "bug");
    assert_eq!(Label::Refactor.as_str(), "refactor");
    assert_eq!(Label::Chore.as_str(), "chore");
    assert_eq!(Label::Docs.as_str(), "docs");
}

fn now() -> Timestamp {
    Timestamp::new(chrono::Utc::now().timestamp_millis())
}

fn prefix() -> ProjectPrefix {
    ProjectPrefix::new("SEO").unwrap()
}

#[test]
fn test_task_new_id_format() {
    let task = Task::new(
        &prefix(),
        1,
        "title",
        "desc",
        Label::Feature,
        "status-id",
        "project-id",
        now(),
    )
    .unwrap();
    assert_eq!(task.id(), "SEO-1");
}

#[test]
fn test_task_new_fields() {
    let ts = now();
    let task = Task::new(&prefix(), 42, "title", "desc", Label::Bug, "sid", "pid", ts).unwrap();
    assert_eq!(task.id(), "SEO-42");
    assert_eq!(task.title(), "title");
    assert_eq!(task.description(), "desc");
    assert_eq!(task.label(), Label::Bug);
    assert_eq!(task.status_id(), "sid");
    assert_eq!(task.project_id(), "pid");
    assert_eq!(task.created_at(), ts);
    assert_eq!(task.updated_at(), ts);
}

#[test]
fn test_task_new_empty_title() {
    let result = Task::new(
        &prefix(),
        1,
        "",
        "desc",
        Label::Feature,
        "sid",
        "pid",
        now(),
    );
    assert!(result.is_err());
}

#[test]
fn test_task_new_empty_description() {
    let result = Task::new(
        &prefix(),
        1,
        "title",
        "",
        Label::Feature,
        "sid",
        "pid",
        now(),
    );
    assert!(result.is_err());
}

#[test]
fn test_task_event_new_fields() {
    let ts = Timestamp::new(1_000_000);
    let event = TaskEvent::new("SEO-1", None, "backlog", "CLI", ts);
    assert_eq!(event.task_id(), "SEO-1");
    assert!(event.from_status().is_none());
    assert_eq!(event.to_status(), "backlog");
    assert_eq!(event.session_id(), "CLI");
    assert_eq!(event.timestamp(), ts);
    assert_eq!(event.id().len(), 32);

    let event2 = TaskEvent::new("SEO-1", Some("backlog"), "todo", "session-1", ts);
    assert_eq!(event2.from_status(), Some("backlog"));
}

#[test]
fn test_cli_session_id_constant() {
    assert_eq!(CLI_SESSION_ID, "CLI");
}

// Own cases.

#[test]
fn label_round_trips_through_text() {
    for l in [Label::Feature, Label::Bug, Label::Refactor, Label::Chore, Label::Docs] {
        assert_eq!(Label::from_str(l.as_str()).unwrap(), l);
        assert_eq!(l.to_string(), l.as_str());
    }
}

#[test]
fn task_id_with_negative_sequence() {
    let task = Task::new(&prefix(), -3, "t", "d", Label::Docs, "s", "p", now()).unwrap();
    assert_eq!(task.id(), "SEO--3");
}

#[test]
fn task_errors_name_the_field() {
    let e = Task::new(&prefix(), 1, "", "d", Label::Docs, "s", "p", now()).unwrap_err();
    assert_eq!(e.to_string(), "Validation error: Task title must not be empty");
    let e = Task::new(&prefix(), 1, "t", "", Label::Docs, "s", "p", now()).unwrap_err();
    assert_eq!(e.to_string(), "Validation error: Task description must not be empty");
}

#[test]
fn event_ids_are_hex() {
    let e = TaskEvent::new("SEO-1", None, "backlog", "CLI", Timestamp::new(0));
    assert!(e.id().chars().all(|c| matches!(c, '0'..='9' | 'a'..='f')));
}
