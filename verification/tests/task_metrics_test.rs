use seogi::domain::status::StatusCategory;
use seogi::domain::task::TaskEvent;
use seogi::domain::task_metrics::{
    cycle_time, first_transition_to, has_rework, issue_age, lead_time, resolve_category,
    throughput, triage_time, wait_time,
};
use seogi::domain::value::{Ms, Timestamp};

fn status_map() -> Vec<(String, StatusCategory)> {
    vec![
        ("backlog".to_string(), StatusCategory::Backlog),
        ("todo".to_string(), StatusCategory::Unstarted),
        ("in_progress".to_string(), StatusCategory::Started),
        ("in_review".to_string(), StatusCategory::Started),
        ("blocked".to_string(), StatusCategory::Started),
        ("done".to_string(), StatusCategory::Completed),
        ("canceled".to_string(), StatusCategory::Canceled),
    ]
}

fn event(from: Option<&str>, to: &str, ts: i64) -> TaskEvent {
    TaskEvent::new("SEO-1", from, to, "CLI", Timestamp::new(ts))
}

fn event_for_task(task_id: &str, from: Option<&str>, to: &str, ts: i64) -> TaskEvent {
    TaskEvent::new(task_id, from, to, "CLI", Timestamp::new(ts))
}

#[test]
fn triage_time_backlog_to_unstarted() {
    let sm = status_map();
    let events = vec![
        event(None, "backlog", 1000),
        event(Some("backlog"), "todo", 3000),
    ];
    assert_eq!(triage_time(&events, &sm), Some(Ms::new(2000)));
}

#[test]
fn triage_time_no_unstarted() {
    let sm = status_map();
    let events = vec![event(None, "backlog", 1000)];
    assert_eq!(triage_time(&events, &sm), None);
}

#[test]
fn triage_time_no_events() {
    let sm = status_map();
    assert_eq!(triage_time(&[], &sm), None);
}

#[test]
fn cycle_time_started_to_completed() {
    let sm = status_map();
    let events = vec![
        event(None, "backlog", 1000),
        event(Some("backlog"), "todo", 2000),
        event(Some("todo"), "in_progress", 3000),
        event(Some("in_progress"), "done", 8000),
    ];
    assert_eq!(cycle_time(&events, &sm), Some(Ms::new(5000)));
}

#[test]
fn cycle_time_no_completed() {
    let sm = status_map();
    let events = vec![
        event(None, "backlog", 1000),
        event(Some("backlog"), "in_progress", 3000),
    ];
    assert_eq!(cycle_time(&events, &sm), None);
}

#[test]
fn cycle_time_no_started() {
    let sm = status_map();
    let events = vec![event(None, "backlog", 1000)];
    assert_eq!(cycle_time(&events, &sm), None);
}

#[test]
fn lead_time_created_to_completed() {
    let sm = status_map();
    let events = vec![
        event(None, "backlog", 1000),
        event(Some("backlog"), "done", 10000),
    ];
    assert_eq!(
        lead_time(&events, Timestamp::new(500), &sm),
        Some(Ms::new(9500))
    );
}

#[test]
fn lead_time_no_completed() {
    let sm = status_map();
    let events = vec![event(None, "backlog", 1000)];
    assert_eq!(lead_time(&events, Timestamp::new(500), &sm), None);
}

#[test]
fn wait_time_both_present() {
    assert_eq!(
        wait_time(Some(Ms::new(10000)), Some(Ms::new(5000))),
        Some(Ms::new(5000))
    );
}

#[test]
fn wait_time_missing_lead() {
    assert_eq!(wait_time(None, Some(Ms::new(5000))), None);
}

#[test]
fn wait_time_missing_cycle() {
    assert_eq!(wait_time(Some(Ms::new(10000)), None), None);
}

#[test]
fn throughput_counts_unique_tasks() {
    let events = vec![
        event_for_task("SEO-1", Some("in_progress"), "done", 1000),
        event_for_task("SEO-2", Some("in_progress"), "done", 2000),
        event_for_task("SEO-1", Some("in_progress"), "done", 3000),
    ];
    assert_eq!(throughput(&events), 2);
}

#[test]
fn throughput_empty() {
    assert_eq!(throughput(&[]), 0);
}

#[test]
fn issue_age_incomplete_task() {
    let sm = status_map();
    let events = vec![
        event(None, "backlog", 1000),
        event(Some("backlog"), "in_progress", 2000),
    ];
    let now = Timestamp::new(10000);
    assert_eq!(
        issue_age(&events, Timestamp::new(500), now, &sm),
        Some(Ms::new(9500))
    );
}

#[test]
fn issue_age_completed_task() {
    let sm = status_map();
    let events = vec![
        event(None, "backlog", 1000),
        event(Some("backlog"), "done", 5000),
    ];
    let now = Timestamp::new(10000);
    assert_eq!(issue_age(&events, Timestamp::new(500), now, &sm), None);
}

#[test]
fn issue_age_canceled_task() {
    let sm = status_map();
    let events = vec![
        event(None, "backlog", 1000),
        event(Some("backlog"), "canceled", 5000),
    ];
    let now = Timestamp::new(10000);
    assert_eq!(issue_age(&events, Timestamp::new(500), now, &sm), None);
}

#[test]
fn issue_age_no_events() {
    let sm = status_map();
    let now = Timestamp::new(10000);
    assert_eq!(
        issue_age(&[], Timestamp::new(500), now, &sm),
        Some(Ms::new(9500))
    );
}

#[test]
fn resolve_category_unknown_status() {
    let sm = status_map();
    assert_eq!(resolve_category("unknown_status", &sm), None);
}

#[test]
fn triage_time_custom_status_names() {
    let custom_map = vec![
        ("triage".to_string(), StatusCategory::Backlog),
        ("ready".to_string(), StatusCategory::Unstarted),
    ];
    let events = vec![
        event(None, "triage", 1000),
        event(Some("triage"), "ready", 4000),
    ];
    assert_eq!(triage_time(&events, &custom_map), Some(Ms::new(3000)));
}

#[test]
fn rework_detected_via_consecutive_events() {
    let sm = status_map();
    let events = vec![
        event(Some("todo"), "in_progress", 1000),
        event(Some("in_progress"), "done", 2000),
        event(Some("done"), "in_progress", 3000),
    ];
    assert!(has_rework(&events, &sm));
}

#[test]
fn no_rework_without_completed_to_started() {
    let sm = status_map();
    let events = vec![
        event(Some("todo"), "in_progress", 1000),
        event(Some("in_progress"), "done", 2000),
    ];
    assert!(!has_rework(&events, &sm));
}

// Own cases.

#[test]
fn first_transition_takes_the_earliest() {
    let sm = status_map();
    let events = vec![
        event(None, "backlog", 1000),
        event(Some("backlog"), "in_progress", 2000),
        event(Some("in_progress"), "in_review", 4000),
    ];
    assert_eq!(
        first_transition_to(&events, StatusCategory::Started, &sm),
        Some(Timestamp::new(2000))
    );
    assert_eq!(first_transition_to(&events, StatusCategory::Completed, &sm), None);
}

#[test]
fn wait_is_lead_minus_cycle_on_real_events() {
    let sm = status_map();
    let events = vec![
        event(None, "backlog", 1000),
        event(Some("backlog"), "in_progress", 4000),
        event(Some("in_progress"), "done", 9000),
    ];
    let lead = lead_time(&events, Timestamp::new(1000), &sm);
    let cycle = cycle_time(&events, &sm);
    assert_eq!(lead, Some(Ms::new(8000)));
    assert_eq!(cycle, Some(Ms::new(5000)));
    assert_eq!(wait_time(lead, cycle), Some(Ms::new(3000)));
}

#[test]
fn rework_needs_adjacent_completed_then_started() {
    let sm = status_map();
    let events = vec![
        event(Some("in_progress"), "done", 1000),
        event(Some("done"), "backlog", 2000),
        event(Some("backlog"), "in_progress", 3000),
    ];
    assert!(!has_rework(&events, &sm));
}

#[test]
fn resolve_category_first_match() {
    let sm = vec![
        ("x".to_string(), StatusCategory::Started),
        ("x".to_string(), StatusCategory::Completed),
    ];
    assert_eq!(resolve_category("x", &sm), Some(StatusCategory::Started));
}
