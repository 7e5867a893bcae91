use seogi::query::{
    cycle_list_query, cycle_list_row, cycle_update_statement, overlapping_cycles_query,
    task_list_query, task_update_statement, TaskFilter, TaskUpdate,
};
use seogi::domain::cycle::parse_date;

#[test]
fn task_list_without_filters() {
    let q = task_list_query(&TaskFilter {
        project_name: None,
        status_name: None,
        label: None,
    });
    assert!(q.sql.ends_with("WHERE 1=1 ORDER BY t.created_at DESC"));
    assert!(q.params.is_empty());
}

#[test]
fn task_list_with_all_filters_in_order() {
    let q = task_list_query(&TaskFilter {
        project_name: Some("Seogi"),
        status_name: Some("todo"),
        label: Some("bug"),
    });
    assert!(q.sql.ends_with(
        "WHERE 1=1 AND p.name = ? AND s.name = ? AND t.label = ? ORDER BY t.created_at DESC"
    ));
    assert_eq!(q.params, vec!["Seogi", "todo", "bug"]);
}

#[test]
fn task_update_sets_only_given_fields() {
    let q = task_update_statement(
        "SEO-1",
        &TaskUpdate {
            title: Some("new"),
            description: None,
            label: Some("docs"),
        },
        "2026-01-01T00:00:00Z",
    );
    assert_eq!(q.sql, "UPDATE tasks SET updated_at = ?, title = ?, label = ? WHERE id = ?");
    assert_eq!(q.params, vec!["2026-01-01T00:00:00Z", "new", "docs", "SEO-1"]);
}

#[test]
fn cycle_update_puts_time_last() {
    let q = cycle_update_statement("c1", None, Some("2026-05-01"), Some("2026-05-14"), "now");
    assert_eq!(
        q.sql,
        "UPDATE cycles SET start_date = ?, end_date = ?, updated_at = ? WHERE id = ?"
    );
    assert_eq!(q.params, vec!["2026-05-01", "2026-05-14", "now", "c1"]);
    let q = cycle_update_statement("c1", None, None, None, "now");
    assert_eq!(q.sql, "UPDATE cycles SET updated_at = ? WHERE id = ?");
}

#[test]
fn overlap_query_excludes_self_when_asked() {
    let q = overlapping_cycles_query("w", "2026-05-01", "2026-05-14", Some("c1"));
    assert!(q.sql.ends_with("AND start_date <= ?3 AND end_date >= ?2 AND id != ?4"));
    assert_eq!(q.params, vec!["w", "2026-05-01", "2026-05-14", "c1"]);
    let q = overlapping_cycles_query("w", "a", "b", None);
    assert!(q.sql.ends_with("end_date >= ?2"));
    assert_eq!(q.params.len(), 3);
}

#[test]
fn cycle_list_filters_by_workspace() {
    let q = cycle_list_query(Some("Seogi"));
    assert!(q.sql.ends_with("WHERE w.name = ? ORDER BY c.created_at DESC"));
    assert_eq!(q.params, vec!["Seogi"]);
    assert!(cycle_list_query(None).params.is_empty());
}

#[test]
fn cycle_list_row_derives_status() {
    let today = parse_date("2026-05-15").unwrap();
    let row = cycle_list_row(
        "c1".into(),
        "Seogi".into(),
        "Sprint".into(),
        "2026-05-10".into(),
        "2026-05-20".into(),
        "t0".into(),
        "t1".into(),
        today,
    );
    assert_eq!(row.status, "active");
    assert_eq!(row.workspace_name, "Seogi");
}
