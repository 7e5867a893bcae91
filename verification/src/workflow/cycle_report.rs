//! Building a cycle report from the tasks assigned to the cycle: which task
//! goes to which section, and the text that comes out.

use vstd::prelude::*;
use crate::domain::cycle::{Assigned, Cycle};
use crate::domain::cycle_report::{
    category_of, classify, format_cycle_report, report_lines, tokens_fit,
    CycleReportCategory, FormatCycleReportInput,
};
use crate::domain::status::StatusCategory;
use crate::domain::task_metrics::{category_in, map_view, resolve_category};
use crate::text::{chars_of, join_lines, push_str, string_of};

verus! {

broadcast use vstd::string::group_string_axioms;

/// One task assigned to a cycle as the report sees it: how it was assigned
/// and, when the task still exists, the name of its status.
pub struct AssignedTaskState {
    pub assigned: Assigned,
    pub status_name: Option<String>,
}

/// The positions of the assigned tasks in each section of the report, in
/// the order in which the tasks were assigned.
pub struct CycleReportPlan {
    pub planned_done: Vec<usize>,
    pub planned_incomplete: Vec<usize>,
    pub unplanned_done: Vec<usize>,
}

/// The category a status name stands for; a name that the status map does
/// not know counts as backlog.
pub open spec fn category_or_backlog(m: Seq<(Seq<char>, StatusCategory)>, name: Seq<char>) -> StatusCategory {
    match category_in(m, name) {
        Some(c) => c,
        None => StatusCategory::Backlog,
    }
}

/// The section an assigned task goes to: none for a task that no longer
/// exists, else as its assignment and status category decide.
pub open spec fn section_of(t: AssignedTaskState, m: Seq<(Seq<char>, StatusCategory)>) -> Option<CycleReportCategory> {
    match t.status_name {
        Some(name) => category_of(t.assigned, category_or_backlog(m, name@)),
        None => None,
    }
}

/// Positions as integers.
pub open spec fn positions(v: Seq<usize>) -> Seq<int> {
    v.map_values(|p: usize| p as int)
}

/// The positions, below `n`, of the tasks that go to section `c`, in
/// ascending order.
pub open spec fn positions_in(
    ts: Seq<AssignedTaskState>,
    m: Seq<(Seq<char>, StatusCategory)>,
    c: CycleReportCategory,
    n: nat,
) -> Seq<int>
    decreases n,
{
    if n == 0 {
        seq![]
    } else {
        let before = positions_in(ts, m, c, (n - 1) as nat);
        if section_of(ts[n - 1], m) == Some(c) {
            before.push(n - 1)
        } else {
            before
        }
    }
}

/// Every listed position is below `n` and its task goes to section `c`;
/// the list ascends.
pub proof fn lemma_positions_sound(
    ts: Seq<AssignedTaskState>,
    m: Seq<(Seq<char>, StatusCategory)>,
    c: CycleReportCategory,
    n: nat,
)
    requires
        n <= ts.len(),
    ensures
        forall|k: int|
            0 <= k < positions_in(ts, m, c, n).len() ==> {
                let p = #[trigger] positions_in(ts, m, c, n)[k];
                &&& 0 <= p < n
                &&& section_of(ts[p], m) == Some(c)
            },
        forall|k: int, l: int|
            0 <= k < l < positions_in(ts, m, c, n).len() ==> positions_in(ts, m, c, n)[k]
                < positions_in(ts, m, c, n)[l],
    decreases n,
{
    if n > 0 {
        lemma_positions_sound(ts, m, c, (n - 1) as nat);
    }
}

/// A task goes to section `c` exactly when its position is listed there.
pub proof fn lemma_positions_complete(
    ts: Seq<AssignedTaskState>,
    m: Seq<(Seq<char>, StatusCategory)>,
    c: CycleReportCategory,
    n: nat,
    i: int,
)
    requires
        n <= ts.len(),
        0 <= i < n,
    ensures
        section_of(ts[i], m) == Some(c) <==> positions_in(ts, m, c, n).contains(i),
    decreases n,
{
    lemma_positions_sound(ts, m, c, (n - 1) as nat);
    let before = positions_in(ts, m, c, (n - 1) as nat);
    let all = positions_in(ts, m, c, n);
    if i < n - 1 {
        lemma_positions_complete(ts, m, c, (n - 1) as nat, i);
        if all.contains(i) {
            let k = choose|k: int| 0 <= k < all.len() && #[trigger] all[k] == i;
            if k < before.len() {
                assert(before[k] == all[k]);
            }
        }
        if before.contains(i) {
            let k = choose|k: int| 0 <= k < before.len() && #[trigger] before[k] == i;
            assert(all[k] == before[k]);
        }
    } else if section_of(ts[i], m) == Some(c) {
        assert(all[before.len() as int] == i);
    } else if all.contains(i) {
        let k = choose|k: int| 0 <= k < all.len() && #[trigger] all[k] == i;
        assert(all[k] < n - 1);
    }
}

/// Every planned task that still exists is reported exactly once: as
/// done or as incomplete, never as unplanned; an automatically included
/// task is never reported as planned.
pub proof fn lemma_planned_task_reported_once(
    ts: Seq<AssignedTaskState>,
    m: Seq<(Seq<char>, StatusCategory)>,
    i: int,
)
    requires
        0 <= i < ts.len(),
    ensures
        ts[i].status_name is Some && ts[i].assigned == Assigned::Planned ==> (positions_in(
            ts,
            m,
            CycleReportCategory::PlannedDone,
            ts.len(),
        ).contains(i) != positions_in(ts, m, CycleReportCategory::PlannedIncomplete, ts.len()).contains(i))
            && !positions_in(ts, m, CycleReportCategory::UnplannedDone, ts.len()).contains(i),
        ts[i].assigned == Assigned::Auto ==> !positions_in(
            ts,
            m,
            CycleReportCategory::PlannedDone,
            ts.len(),
        ).contains(i) && !positions_in(ts, m, CycleReportCategory::PlannedIncomplete, ts.len()).contains(i),
{
    lemma_positions_complete(ts, m, CycleReportCategory::PlannedDone, ts.len(), i);
    lemma_positions_complete(ts, m, CycleReportCategory::PlannedIncomplete, ts.len(), i);
    lemma_positions_complete(ts, m, CycleReportCategory::UnplannedDone, ts.len(), i);
}

/// Sorts the assigned tasks of a cycle into the three report sections:
/// a task that no longer exists is left out, a status name that the map
/// does not know counts as backlog, and an automatically included task
/// that is not completed is left out.
pub fn plan_cycle_report(tasks: &[AssignedTaskState], status_map: &[(String, StatusCategory)]) -> (r: CycleReportPlan)
    ensures
        positions(r.planned_done@) == positions_in(
            tasks@,
            map_view(status_map@),
            CycleReportCategory::PlannedDone,
            tasks@.len(),
        ),
        positions(r.planned_incomplete@) == positions_in(
            tasks@,
            map_view(status_map@),
            CycleReportCategory::PlannedIncomplete,
            tasks@.len(),
        ),
        positions(r.unplanned_done@) == positions_in(
            tasks@,
            map_view(status_map@),
            CycleReportCategory::UnplannedDone,
            tasks@.len(),
        ),
{
    let ghost m = map_view(status_map@);
    let mut planned_done: Vec<usize> = Vec::new();
    let mut planned_incomplete: Vec<usize> = Vec::new();
    let mut unplanned_done: Vec<usize> = Vec::new();
    let mut i: usize = 0;
    while i < tasks.len()
        invariant
            i <= tasks@.len(),
            m == map_view(status_map@),
            positions(planned_done@) == positions_in(tasks@, m, CycleReportCategory::PlannedDone, i as nat),
            positions(planned_incomplete@) == positions_in(tasks@, m, CycleReportCategory::PlannedIncomplete, i as nat),
            positions(unplanned_done@) == positions_in(tasks@, m, CycleReportCategory::UnplannedDone, i as nat),
        decreases tasks@.len() - i,
    {
        let ghost old_planned_done = planned_done@;
        let ghost old_planned_incomplete = planned_incomplete@;
        let ghost old_unplanned_done = unplanned_done@;
        let t = &tasks[i];
        let section = match &t.status_name {
            Some(name) => {
                let category = match resolve_category(name.as_str(), status_map) {
                    Some(c) => c,
                    None => StatusCategory::Backlog,
                };
                classify(t.assigned, category)
            },
            None => None,
        };
        assert(section == section_of(tasks@[i as int], m));
        match section {
            Some(CycleReportCategory::PlannedDone) => {
                planned_done.push(i);
                assert(positions(planned_done@) =~= positions(old_planned_done).push(i as int));
            },
            Some(CycleReportCategory::PlannedIncomplete) => {
                planned_incomplete.push(i);
                assert(positions(planned_incomplete@) =~= positions(old_planned_incomplete).push(i as int));
            },
            Some(CycleReportCategory::UnplannedDone) => {
                unplanned_done.push(i);
                assert(positions(unplanned_done@) =~= positions(old_unplanned_done).push(i as int));
            },
            None => {},
        }
        i = i + 1;
    }
    CycleReportPlan { planned_done, planned_incomplete, unplanned_done }
}

/// What a cycle report prints when no task is assigned to the cycle.
pub open spec fn no_tasks_text() -> Seq<char> {
    "No tasks assigned to this cycle.\n"@
}

/// The printed cycle report: the message for a cycle without assigned
/// tasks, else the laid-out report followed by a line feed.
pub fn cycle_report_text(assigned_count: usize, input: &FormatCycleReportInput) -> (r: String)
    requires
        forall|i: int| 0 <= i < input.planned_done@.len() ==> tokens_fit(#[trigger] input.planned_done@[i].tokens),
        forall|i: int| 0 <= i < input.unplanned_done@.len() ==> tokens_fit(#[trigger] input.unplanned_done@[i].tokens),
    ensures
        assigned_count == 0 ==> r@ == no_tasks_text(),
        assigned_count > 0 ==> r@ == join_lines(report_lines(*input)) + "\n"@,
{
    proof {
        reveal_strlit("No tasks assigned to this cycle.\n");
        reveal_strlit("\n");
    }
    if assigned_count == 0 {
        return "No tasks assigned to this cycle.\n".to_owned();
    }
    let report = format_cycle_report(input);
    let mut v = chars_of(report.as_str());
    push_str(&mut v, "\n");
    string_of(&v)
}

/// The message when the cycle of a report does not exist.
pub open spec fn cycle_missing_message(cycle_id: Seq<char>) -> Seq<char> {
    "Cycle not found: "@ + cycle_id
}

/// The cycle a report is asked for, or the error when the lookup found
/// none.
pub fn report_cycle(found: Option<Cycle>, cycle_id: &str) -> (r: Result<Cycle, String>)
    ensures
        found matches Some(c) ==> r == Ok::<Cycle, String>(c),
        found is None ==> (r matches Err(m) && m@ == cycle_missing_message(cycle_id@)),
{
    match found {
        Some(c) => Ok(c),
        None => {
            let mut m = chars_of("Cycle not found: ");
            push_str(&mut m, cycle_id);
            Err(string_of(&m))
        },
    }
}

} // verus!
