use seogi::domain::cycle::Cycle;
use seogi::domain::project::{Project, ProjectPrefix};
use seogi::domain::status::{Status, StatusCategory};
use seogi::domain::task::{Label, Task};
use seogi::domain::value::Timestamp;
use seogi::listing::{
    created_cycle_message, created_project_message, created_status_message, created_task_message,
    cycle_header, cycle_line, project_header, project_line, status_header, status_line,
    task_header, task_line,
};
use seogi::query::{CycleListRow, TaskListRow};

#[test]
fn cycle_table_matches_format_layout() {
    let row = CycleListRow {
        id: "0123456789abcdef".to_string(),
        workspace_name: "Seogi".to_string(),
        name: "Sprint 1".to_string(),
        status: "active".to_string(),
        start_date: "2026-05-01".to_string(),
        end_date: "2026-05-14".to_string(),
        created_at: "c".to_string(),
        updated_at: "u".to_string(),
    };
    assert_eq!(
        cycle_header(),
        format!("{:<12} {:<16} {:<12} {:<14} {:<14} WORKSPACE", "ID", "NAME", "STATUS", "START", "END")
    );
    assert_eq!(
        cycle_line(&row),
        format!(
            "{:<12} {:<16} {:<12} {:<14} {:<14} {}",
            "0123456789", "Sprint 1", "active", "2026-05-01", "2026-05-14", "Seogi"
        )
    );
}

#[test]
fn task_table_marks_blocked_tasks() {
    let row = TaskListRow {
        id: "SEO-1".to_string(),
        title: "Title".to_string(),
        description: "d".to_string(),
        label: "bug".to_string(),
        status_name: "todo".to_string(),
        project_name: "Seogi".to_string(),
        created_at: "c".to_string(),
        updated_at: "u".to_string(),
    };
    assert_eq!(task_header(), format!("{:<10} {:<24} {:<24} LABEL", "ID", "TITLE", "STATUS"));
    assert_eq!(
        task_line(&row, true),
        format!("{:<10} {:<24} {:<24} {}", "SEO-1", "Title", "todo [blocked]", "bug")
    );
    assert_eq!(
        task_line(&row, false),
        format!("{:<10} {:<24} {:<24} {}", "SEO-1", "Title", "todo", "bug")
    );
}

#[test]
fn project_and_status_tables() {
    let prefix = ProjectPrefix::new("SEO").unwrap();
    let p = Project::new("Seogi", &prefix, "measure", Timestamp::new(0)).unwrap();
    assert_eq!(project_header(), format!("{:<8} {:<20} GOAL", "PREFIX", "NAME"));
    assert_eq!(project_line(&p), format!("{:<8} {:<20} {}", "SEO", "Seogi", "measure"));
    let s = Status::from_row("sid".to_string(), "doing".to_string(), StatusCategory::Started, -2);
    assert_eq!(status_header(), format!("{:<36} {:<16} {:<12} POS", "ID", "NAME", "CATEGORY"));
    assert_eq!(
        status_line(&s),
        format!("{:<36} {:<16} {:<12} {}", "sid", "doing", "started", -2)
    );
}

#[test]
fn creation_messages() {
    let prefix = ProjectPrefix::new("SEO").unwrap();
    let p = Project::new("Seogi", &prefix, "g", Timestamp::new(0)).unwrap();
    assert_eq!(created_project_message(&p), "Created project \"Seogi\" (SEO)");
    let s = Status::from_row("sid".to_string(), "doing".to_string(), StatusCategory::Started, 7);
    assert_eq!(created_status_message(&s), "Created status \"doing\" (started, position 7)");
    let t = Task::new(&prefix, 3, "Fix", "d", Label::Bug, "s", "p", Timestamp::new(0)).unwrap();
    assert_eq!(created_task_message(&t), "Created task SEO-3 \"Fix\"");
    let c = Cycle::from_row(
        "cid".to_string(),
        "w".to_string(),
        "Sprint".to_string(),
        "2026-05-01".to_string(),
        "2026-05-14".to_string(),
        Timestamp::new(0),
        Timestamp::new(0),
    );
    assert_eq!(created_cycle_message(&c), "Created cycle cid \"Sprint\"");
}
