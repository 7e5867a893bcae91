//! Concrete instances of the properties the library proves.

use seogi::domain::cycle::{derive_status, parse_date, CycleStatus};
use seogi::domain::dependency::detect_cycle;
use seogi::domain::log::extract_project_from_cwd;
use seogi::domain::metrics::calc_edit_files;
use seogi::domain::log::ToolUse;
use seogi::domain::status::StatusCategory;
use seogi::domain::task::TaskEvent;
use seogi::domain::task_metrics::throughput;
use seogi::domain::value::{Ms, SessionId, Timestamp};
use seogi::transcript::project_hash;

#[test]
fn status_moves_forward_with_the_days() {
    let order = |s: CycleStatus| match s {
        CycleStatus::Planned => 0,
        CycleStatus::Active => 1,
        CycleStatus::Completed => 2,
    };
    let mut last = 0;
    for day in ["2026-05-01", "2026-05-10", "2026-05-15", "2026-05-20", "2026-05-21"] {
        let s = order(derive_status("2026-05-10", "2026-05-20", parse_date(day).unwrap()));
        assert!(s >= last);
        last = s;
    }
    assert_eq!(last, 2);
}

#[test]
fn completed_only_reopens() {
    for to in [
        StatusCategory::Backlog,
        StatusCategory::Unstarted,
        StatusCategory::Canceled,
    ] {
        assert!(!StatusCategory::Completed.can_transition_to(to));
    }
    assert!(StatusCategory::Completed.can_transition_to(StatusCategory::Started));
}

#[test]
fn more_edges_keep_a_cycle() {
    let mut edges = vec![("A".to_string(), "B".to_string())];
    assert!(detect_cycle(&edges, "B", "A"));
    edges.push(("C".to_string(), "D".to_string()));
    edges.push(("B".to_string(), "C".to_string()));
    assert!(detect_cycle(&edges, "B", "A"));
}

#[test]
fn project_names_are_single_components() {
    for cwd in ["/", "", "a/b/c", "/x/..", "//y//"] {
        let name = extract_project_from_cwd(cwd);
        assert!(!name.is_empty());
        assert!(!name.contains('/'));
    }
}

#[test]
fn edit_files_have_no_repeats() {
    let uses: Vec<ToolUse> = ["b", "a", "b", "c", "a"]
        .iter()
        .enumerate()
        .map(|(i, p)| {
            ToolUse::new(
                format!("{i}"),
                SessionId::new("s"),
                "p".into(),
                "/p".into(),
                "Edit".into(),
                format!("{{\"file_path\":\"{p}\"}}"),
                Ms::zero(),
                Timestamp::new(i as i64),
            )
        })
        .collect();
    let files = calc_edit_files(&uses);
    let mut dedup = files.clone();
    dedup.dedup();
    assert_eq!(files, dedup);
    assert_eq!(files, vec!["a", "b", "c"]);
}

#[test]
fn throughput_never_exceeds_events() {
    let events: Vec<TaskEvent> = ["T1", "T1", "T2"]
        .iter()
        .map(|t| TaskEvent::new(t, None, "done", "CLI", Timestamp::new(0)))
        .collect();
    assert!(throughput(&events) as usize <= events.len());
    assert_eq!(throughput(&events), 2);
}

#[test]
fn project_hash_has_no_separators() {
    let h = project_hash("/a/b/-c");
    assert!(!h.contains('/'));
    assert!(!h.starts_with('-'));
}
