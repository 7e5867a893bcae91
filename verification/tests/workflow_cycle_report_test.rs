use seogi::domain::cycle::Cycle;
use seogi::domain::value::Timestamp;
use seogi::workflow::cycle_report::report_cycle;
use seogi::domain::cycle::Assigned;
use seogi::domain::cycle_report::{CycleSummary, FormatCycleReportInput, IncompleteTask, TaskReport};
use seogi::domain::status::StatusCategory;
use seogi::workflow::cycle_report::{cycle_report_text, plan_cycle_report, AssignedTaskState};

fn status_map() -> Vec<(String, StatusCategory)> {
    vec![
        ("backlog".to_string(), StatusCategory::Backlog),
        ("in_progress".to_string(), StatusCategory::Started),
        ("done".to_string(), StatusCategory::Completed),
    ]
}

fn state(assigned: Assigned, status: Option<&str>) -> AssignedTaskState {
    AssignedTaskState { assigned, status_name: status.map(str::to_string) }
}

#[test]
fn plan_sorts_mixed_cycle() {
    let tasks = vec![
        state(Assigned::Planned, Some("done")),
        state(Assigned::Planned, Some("backlog")),
        state(Assigned::Auto, Some("done")),
    ];
    let plan = plan_cycle_report(&tasks, &status_map());
    assert_eq!(plan.planned_done, vec![0]);
    assert_eq!(plan.planned_incomplete, vec![1]);
    assert_eq!(plan.unplanned_done, vec![2]);
}

#[test]
fn plan_leaves_out_auto_task_not_completed() {
    let tasks = vec![state(Assigned::Auto, Some("in_progress")), state(Assigned::Auto, Some("backlog"))];
    let plan = plan_cycle_report(&tasks, &status_map());
    assert!(plan.planned_done.is_empty());
    assert!(plan.planned_incomplete.is_empty());
    assert!(plan.unplanned_done.is_empty());
}

#[test]
fn plan_leaves_out_missing_task() {
    let tasks = vec![state(Assigned::Planned, None), state(Assigned::Planned, Some("done"))];
    let plan = plan_cycle_report(&tasks, &status_map());
    assert_eq!(plan.planned_done, vec![1]);
    assert!(plan.planned_incomplete.is_empty());
}

#[test]
fn plan_treats_unknown_status_as_backlog() {
    let tasks = vec![state(Assigned::Planned, Some("review")), state(Assigned::Auto, Some("review"))];
    let plan = plan_cycle_report(&tasks, &status_map());
    assert_eq!(plan.planned_incomplete, vec![0]);
    assert!(plan.unplanned_done.is_empty());
}

#[test]
fn plan_keeps_assignment_order() {
    let tasks = vec![
        state(Assigned::Planned, Some("done")),
        state(Assigned::Auto, Some("done")),
        state(Assigned::Planned, Some("done")),
        state(Assigned::Planned, Some("in_progress")),
        state(Assigned::Planned, Some("done")),
    ];
    let plan = plan_cycle_report(&tasks, &status_map());
    assert_eq!(plan.planned_done, vec![0, 2, 4]);
    assert_eq!(plan.planned_incomplete, vec![3]);
    assert_eq!(plan.unplanned_done, vec![1]);
}

fn report(id: &str) -> TaskReport {
    TaskReport {
        id: id.to_string(),
        title: "Task".to_string(),
        cycle_time: None,
        lead_time: None,
        tokens: None,
        task_size: None,
        has_rework: false,
    }
}

#[test]
fn report_text_without_tasks() {
    let summary = CycleSummary {
        completion_percent: 0,
        planned_done_count: 0,
        planned_total: 0,
        throughput: 0,
        planned_throughput: 0,
        unplanned_throughput: 0,
        avg_flow_eff_text: None,
        first_time_done_percent: 0,
    };
    let input = FormatCycleReportInput {
        cycle_name: "Sprint 1",
        start_date: "2026-05-01",
        end_date: "2026-05-14",
        status: "active",
        planned_done: &[],
        planned_incomplete: &[],
        unplanned_done: &[],
        summary: &summary,
    };
    assert_eq!(cycle_report_text(0, &input), "No tasks assigned to this cycle.\n");
}

#[test]
fn report_text_mixed_cycle() {
    let planned_done = vec![report("SEO-1")];
    let planned_incomplete = vec![IncompleteTask {
        id: "SEO-2".to_string(),
        title: "Task".to_string(),
        status_name: "backlog".to_string(),
        issue_age: None,
    }];
    let unplanned_done = vec![report("SEO-3")];
    let summary = CycleSummary {
        completion_percent: 50,
        planned_done_count: 1,
        planned_total: 2,
        throughput: 2,
        planned_throughput: 1,
        unplanned_throughput: 1,
        avg_flow_eff_text: None,
        first_time_done_percent: 100,
    };
    let input = FormatCycleReportInput {
        cycle_name: "Sprint 1",
        start_date: "2026-05-01",
        end_date: "2026-05-14",
        status: "active",
        planned_done: &planned_done,
        planned_incomplete: &planned_incomplete,
        unplanned_done: &unplanned_done,
        summary: &summary,
    };
    let text = cycle_report_text(3, &input);
    assert!(text.ends_with("first_time_done: 100%\n"));
    assert!(text.contains("Planned Done (1/2 tasks)"));
    assert!(text.contains("Planned Incomplete (1/2 tasks)"));
    assert!(text.contains("Unplanned Done (1 task)"));
    assert!(text.contains("completion_rate: 50%"));
    assert!(text.contains("throughput: 2 tasks (1 planned + 1 unplanned)"));
}

#[test]
fn report_of_missing_cycle_is_refused() {
    let err = report_cycle(None, "nonexistent").err().unwrap();
    assert!(err.contains("Cycle not found"));
    assert_eq!(err, "Cycle not found: nonexistent");
}

#[test]
fn report_of_existing_cycle_goes_ahead() {
    let cycle = Cycle::new("ws1", "Sprint 1", "2026-05-01", "2026-05-14", Timestamp::new(1_000)).unwrap();
    let id = cycle.id().to_string();
    let found = report_cycle(Some(cycle), &id).ok().unwrap();
    assert_eq!(found.id(), id);
}
