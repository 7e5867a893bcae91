//! Flow metrics of tasks computed from their status-change events.
//!
//! Status names are user-defined; a status map pairs each name with its
//! category, and the first pair with a given name decides.

use vstd::prelude::*;
use crate::domain::status::StatusCategory;
use crate::domain::task::TaskEvent;
use crate::domain::value::{Ms, Timestamp};
use crate::text::str_eq;

verus! {

/// The names and categories of a status map.
pub open spec fn map_view(m: Seq<(String, StatusCategory)>) -> Seq<(Seq<char>, StatusCategory)> {
    m.map_values(|p: (String, StatusCategory)| (p.0@, p.1))
}

/// The category of the first entry named `name`, if any.
pub open spec fn category_in(m: Seq<(Seq<char>, StatusCategory)>, name: Seq<char>) -> Option<StatusCategory>
    decreases m.len(),
{
    if m.len() == 0 {
        None
    } else if m[0].0 == name {
        Some(m[0].1)
    } else {
        category_in(m.drop_first(), name)
    }
}

/// Looks up the category of a status name.
pub fn resolve_category(status_name: &str, status_map: &[(String, StatusCategory)]) -> (r: Option<StatusCategory>)
    ensures
        r == category_in(map_view(status_map@), status_name@),
{
    let ghost mv = map_view(status_map@);
    assert(mv.skip(0) =~= mv);
    let mut i: usize = 0;
    while i < status_map.len()
        invariant
            i <= status_map@.len(),
            mv == map_view(status_map@),
            category_in(mv, status_name@) == category_in(mv.skip(i as int), status_name@),
        decreases status_map@.len() - i,
    {
        assert(mv.skip(i as int).drop_first() =~= mv.skip(i + 1));
        assert(mv.skip(i as int)[0] == (status_map@[i as int].0@, status_map@[i as int].1));
        if str_eq(status_map[i].0.as_str(), status_name) {
            return Some(status_map[i].1);
        }
        i = i + 1;
    }
    None
}

/// The time of the first event whose new status has category `cat`.
pub open spec fn first_reach(
    events: Seq<TaskEvent>,
    cat: StatusCategory,
    m: Seq<(Seq<char>, StatusCategory)>,
) -> Option<i64>
    decreases events.len(),
{
    if events.len() == 0 {
        None
    } else if category_in(m, events[0]@.to_status) == Some(cat) {
        Some(events[0]@.timestamp)
    } else {
        first_reach(events.drop_first(), cat, m)
    }
}

/// Finds when the task first entered a status of category `category`.
pub fn first_transition_to(
    events: &[TaskEvent],
    category: StatusCategory,
    status_map: &[(String, StatusCategory)],
) -> (r: Option<Timestamp>)
    ensures
        match r {
            Some(t) => first_reach(events@, category, map_view(status_map@)) == Some(t@),
            None => first_reach(events@, category, map_view(status_map@)) is None,
        },
{
    let ghost mv = map_view(status_map@);
    assert(events@.skip(0) =~= events@);
    let mut i: usize = 0;
    while i < events.len()
        invariant
            i <= events@.len(),
            mv == map_view(status_map@),
            first_reach(events@, category, mv) == first_reach(events@.skip(i as int), category, mv),
        decreases events@.len() - i,
    {
        assert(events@.skip(i as int).drop_first() =~= events@.skip(i + 1));
        assert(events@.skip(i as int)[0] == events@[i as int]);
        if resolve_category(events[i].to_status(), status_map) == Some(category) {
            return Some(events[i].timestamp());
        }
        i = i + 1;
    }
    None
}

/// The span from `start` to `end` when both happened.
pub open spec fn span(start: Option<i64>, end: Option<i64>) -> Option<int> {
    match (start, end) {
        (Some(s), Some(e)) => Some(e - s),
        _ => None,
    }
}

/// Whether a span, when it exists, fits in 64 bits.
pub open spec fn span_fits(s: Option<int>) -> bool {
    s matches Some(d) ==> i64::MIN <= d <= i64::MAX
}

/// The span a result reports.
pub open spec fn ms_opt(r: Option<Ms>) -> Option<int> {
    match r {
        Some(m) => Some(m@ as int),
        None => None,
    }
}

fn span_between(start: Option<Timestamp>, end: Option<Timestamp>) -> (r: Option<Ms>)
    requires
        span_fits(span(
            match start { Some(t) => Some(t@), None => None },
            match end { Some(t) => Some(t@), None => None },
        )),
    ensures
        ms_opt(r) == span(
            match start { Some(t) => Some(t@), None => None },
            match end { Some(t) => Some(t@), None => None },
        ),
{
    match (start, end) {
        (Some(s), Some(e)) => Some(Ms::new(e.value() - s.value())),
        _ => None,
    }
}

/// Triage time: from the first arrival in a backlog status to the first
/// arrival in an unstarted one.
pub open spec fn triage_span(events: Seq<TaskEvent>, m: Seq<(Seq<char>, StatusCategory)>) -> Option<int> {
    span(first_reach(events, StatusCategory::Backlog, m), first_reach(events, StatusCategory::Unstarted, m))
}

/// Cycle time: from the first arrival in a started status to the first
/// arrival in a completed one.
pub open spec fn cycle_span(events: Seq<TaskEvent>, m: Seq<(Seq<char>, StatusCategory)>) -> Option<int> {
    span(first_reach(events, StatusCategory::Started, m), first_reach(events, StatusCategory::Completed, m))
}

/// Lead time: from creation to the first arrival in a completed status.
pub open spec fn lead_span(events: Seq<TaskEvent>, created_at: i64, m: Seq<(Seq<char>, StatusCategory)>) -> Option<int> {
    span(Some(created_at), first_reach(events, StatusCategory::Completed, m))
}

/// Time from the first backlog status to the first unstarted one.
pub fn triage_time(events: &[TaskEvent], status_map: &[(String, StatusCategory)]) -> (r: Option<Ms>)
    requires
        span_fits(triage_span(events@, map_view(status_map@))),
    ensures
        ms_opt(r) == triage_span(events@, map_view(status_map@)),
{
    let backlog = first_transition_to(events, StatusCategory::Backlog, status_map);
    let unstarted = first_transition_to(events, StatusCategory::Unstarted, status_map);
    span_between(backlog, unstarted)
}

/// Time from the first started status to the first completed one.
pub fn cycle_time(events: &[TaskEvent], status_map: &[(String, StatusCategory)]) -> (r: Option<Ms>)
    requires
        span_fits(cycle_span(events@, map_view(status_map@))),
    ensures
        ms_opt(r) == cycle_span(events@, map_view(status_map@)),
{
    let started = first_transition_to(events, StatusCategory::Started, status_map);
    let completed = first_transition_to(events, StatusCategory::Completed, status_map);
    span_between(started, completed)
}

/// Time from creation to the first completed status.
pub fn lead_time(
    events: &[TaskEvent],
    created_at_ms: Timestamp,
    status_map: &[(String, StatusCategory)],
) -> (r: Option<Ms>)
    requires
        span_fits(lead_span(events@, created_at_ms@, map_view(status_map@))),
    ensures
        ms_opt(r) == lead_span(events@, created_at_ms@, map_view(status_map@)),
{
    let completed = first_transition_to(events, StatusCategory::Completed, status_map);
    span_between(Some(created_at_ms), completed)
}

/// Waiting time: lead time minus cycle time, when both are known.
pub fn wait_time(lead: Option<Ms>, cycle: Option<Ms>) -> (r: Option<Ms>)
    requires
        match (lead, cycle) {
            (Some(l), Some(c)) => i64::MIN <= l@ - c@ <= i64::MAX,
            _ => true,
        },
    ensures
        ms_opt(r) == (match (lead, cycle) {
            (Some(l), Some(c)) => Some(l@ - c@),
            _ => None::<int>,
        }),
{
    match (lead, cycle) {
        (Some(l), Some(c)) => Some(Ms::new(l.value() - c.value())),
        _ => None,
    }
}

/// The task identifiers of the events.
pub open spec fn task_ids(events: Seq<TaskEvent>) -> Seq<Seq<char>> {
    events.map_values(|e: TaskEvent| e@.task_id)
}

/// The number of distinct tasks among the completion events (kept modulo
/// 2^32, as a `u32` count is).
pub open spec fn distinct_task_count(events: Seq<TaskEvent>) -> nat {
    task_ids(events).to_set().len()
}

/// Counts the distinct tasks among already-filtered completion events.
pub fn throughput(completed_events: &[TaskEvent]) -> (r: u32)
    ensures
        r == #[verifier::truncate] (distinct_task_count(completed_events@) as u32),
{
    let ghost ids = task_ids(completed_events@);
    let mut seen: Vec<&str> = Vec::new();
    let mut i: usize = 0;
    while i < completed_events.len()
        invariant
            i <= completed_events@.len(),
            ids == task_ids(completed_events@),
            seen@.map_values(|s: &str| s@).no_duplicates(),
            seen@.map_values(|s: &str| s@).to_set() == ids.take(i as int).to_set(),
        decreases completed_events@.len() - i,
    {
        let id = completed_events[i].task_id();
        let ghost sv = seen@.map_values(|s: &str| s@);
        let mut found = false;
        let mut j: usize = 0;
        while j < seen.len()
            invariant
                j <= seen@.len(),
                sv == seen@.map_values(|s: &str| s@),
                found ==> sv.contains(id@),
                !found ==> forall|k: int| 0 <= k < j ==> sv[k] != id@,
            decreases seen@.len() - j,
        {
            if !found && str_eq(seen[j], id) {
                found = true;
                assert(sv[j as int] == id@);
            }
            j = j + 1;
        }
        assert(ids.take(i + 1) =~= ids.take(i as int).push(id@));
        assert(ids.take(i + 1).to_set() =~= ids.take(i as int).to_set().insert(id@)) by {
            broadcast use vstd::seq_lib::group_seq_properties;
        }
        if !found {
            seen.push(id);
            assert(seen@.map_values(|s: &str| s@) =~= sv.push(id@));
            assert(!sv.contains(id@));
            assert(sv.push(id@).to_set() =~= sv.to_set().insert(id@)) by {
                broadcast use vstd::seq_lib::group_seq_properties;
            }
        } else {
            assert(sv.to_set().insert(id@) =~= sv.to_set());
        }
        i = i + 1;
    }
    assert(ids.take(i as int) =~= ids);
    proof {
        seen@.map_values(|s: &str| s@).unique_seq_to_set();
    }
    assert(seen@.map_values(|s: &str| s@).len() == seen@.len());
    #[verifier::truncate] (seen.len() as u32)
}

/// Whether some event moved the task into a completed status and the very
/// next event moved it back into a started one.
pub open spec fn reworked(events: Seq<TaskEvent>, m: Seq<(Seq<char>, StatusCategory)>) -> bool {
    exists|i: int|
        0 <= i < events.len() - 1 && category_in(m, #[trigger] events[i]@.to_status) == Some(
            StatusCategory::Completed,
        ) && category_in(m, events[i + 1]@.to_status) == Some(StatusCategory::Started)
}

/// Whether the task went from done back to work in two consecutive events.
pub fn has_rework(events: &[TaskEvent], status_map: &[(String, StatusCategory)]) -> (r: bool)
    ensures
        r == reworked(events@, map_view(status_map@)),
{
    let ghost m = map_view(status_map@);
    if events.len() < 2 {
        return false;
    }
    let mut i: usize = 0;
    while i < events.len() - 1
        invariant
            2 <= events@.len(),
            i + 1 <= events@.len(),
            m == map_view(status_map@),
            forall|k: int|
                0 <= k < i ==> !(category_in(m, #[trigger] events@[k]@.to_status) == Some(
                    StatusCategory::Completed,
                ) && category_in(m, events@[k + 1]@.to_status) == Some(StatusCategory::Started)),
        decreases events@.len() - i,
    {
        let from_cat = resolve_category(events[i].to_status(), status_map);
        let to_cat = resolve_category(events[i + 1].to_status(), status_map);
        if from_cat == Some(StatusCategory::Completed) && to_cat == Some(StatusCategory::Started) {
            return true;
        }
        i = i + 1;
    }
    false
}

/// The age of a task that is still open: `now - created` unless the task
/// ever reached a completed or canceled status.
pub open spec fn open_age(
    events: Seq<TaskEvent>,
    created_at: i64,
    now: i64,
    m: Seq<(Seq<char>, StatusCategory)>,
) -> Option<int> {
    if first_reach(events, StatusCategory::Completed, m) is Some || first_reach(
        events,
        StatusCategory::Canceled,
        m,
    ) is Some {
        None
    } else {
        Some(now - created_at)
    }
}

/// How long an unfinished task has existed.
pub fn issue_age(
    events: &[TaskEvent],
    created_at_ms: Timestamp,
    now_ms: Timestamp,
    status_map: &[(String, StatusCategory)],
) -> (r: Option<Ms>)
    requires
        span_fits(open_age(events@, created_at_ms@, now_ms@, map_view(status_map@))),
    ensures
        ms_opt(r) == open_age(events@, created_at_ms@, now_ms@, map_view(status_map@)),
{
    let completed = first_transition_to(events, StatusCategory::Completed, status_map);
    let canceled = first_transition_to(events, StatusCategory::Canceled, status_map);
    if completed.is_some() || canceled.is_some() {
        return None;
    }
    Some(Ms::new(now_ms.value() - created_at_ms.value()))
}

/// The first arrival in a category is the time of an event that reached it,
/// and no earlier event reached it.
pub proof fn lemma_first_reach_is_earliest(
    events: Seq<TaskEvent>,
    cat: StatusCategory,
    m: Seq<(Seq<char>, StatusCategory)>,
)
    ensures
        first_reach(events, cat, m) is None <==> forall|i: int|
            0 <= i < events.len() ==> category_in(m, #[trigger] events[i]@.to_status) != Some(cat),
        first_reach(events, cat, m) matches Some(t) ==> exists|i: int|
            0 <= i < events.len() && category_in(m, #[trigger] events[i]@.to_status) == Some(cat)
                && events[i]@.timestamp == t && forall|j: int|
                0 <= j < i ==> category_in(m, #[trigger] events[j]@.to_status) != Some(cat),
    decreases events.len(),
{
    if events.len() > 0 {
        let rest = events.drop_first();
        lemma_first_reach_is_earliest(rest, cat, m);
        assert(forall|i: int| 0 <= i < rest.len() ==> rest[i] == events[i + 1]);
        if category_in(m, events[0]@.to_status) == Some(cat) {
            assert(category_in(m, events[0]@.to_status) == Some(cat));
        } else {
            if first_reach(rest, cat, m) is Some {
                let k = choose|i: int|
                    0 <= i < rest.len() && category_in(m, #[trigger] rest[i]@.to_status) == Some(cat)
                        && rest[i]@.timestamp == first_reach(rest, cat, m)->0 && forall|j: int|
                        0 <= j < i ==> category_in(m, #[trigger] rest[j]@.to_status) != Some(cat);
                assert(events[k + 1] == rest[k]);
                assert forall|j: int| 0 <= j < k + 1 implies category_in(m, #[trigger] events[j]@.to_status) != Some(cat) by {
                    if j > 0 {
                        assert(events[j] == rest[j - 1]);
                    }
                }
            } else {
                assert forall|i: int| 0 <= i < events.len() implies category_in(m, #[trigger] events[i]@.to_status) != Some(cat) by {
                    if i > 0 {
                        assert(events[i] == rest[i - 1]);
                    }
                }
            }
        }
    }
}

/// Waiting time (lead time minus cycle time) is the time from creation to
/// the first arrival in a started status.
pub proof fn lemma_wait_is_time_before_start(
    events: Seq<TaskEvent>,
    created_at: i64,
    m: Seq<(Seq<char>, StatusCategory)>,
)
    requires
        lead_span(events, created_at, m) is Some,
        cycle_span(events, m) is Some,
    ensures
        lead_span(events, created_at, m)->0 - cycle_span(events, m)->0 == first_reach(
            events,
            StatusCategory::Started,
            m,
        )->0 - created_at,
{
}

/// How many of the event groups show rework.
pub open spec fn reworked_groups(groups: Seq<&[TaskEvent]>, m: Seq<(Seq<char>, StatusCategory)>) -> nat
    decreases groups.len(),
{
    if groups.len() == 0 {
        0
    } else {
        reworked_groups(groups.drop_last(), m) + (if reworked(groups.last()@, m) {
            1nat
        } else {
            0nat
        })
    }
}

/// Counts the tasks, given by their event groups, that were reworked; the
/// rework rate is this count over the number of groups, the first-time-done
/// rate the rest over the number of groups.
pub fn rework_count(groups: &[&[TaskEvent]], status_map: &[(String, StatusCategory)]) -> (r: usize)
    ensures
        r == reworked_groups(groups@, map_view(status_map@)),
        r <= groups.len(),
{
    let ghost m = map_view(status_map@);
    let mut n: usize = 0;
    let mut i: usize = 0;
    assert(groups@.take(0) =~= Seq::<&[TaskEvent]>::empty());
    while i < groups.len()
        invariant
            i <= groups.len(),
            n <= i,
            m == map_view(status_map@),
            n == reworked_groups(groups@.take(i as int), m),
        decreases groups.len() - i,
    {
        assert(groups@.take(i + 1).drop_last() =~= groups@.take(i as int));
        assert(groups@.take(i + 1).last() == groups@[i as int]);
        if has_rework(groups[i], status_map) {
            n += 1;
        }
        i += 1;
    }
    assert(groups@.take(i as int) =~= groups@);
    n
}

/// The two durations whose ratio is the flow efficiency: present when both
/// are known and the lead time is not zero.
pub open spec fn flow_parts_of(cycle: Option<Ms>, lead: Option<Ms>) -> Option<(i64, i64)> {
    match (cycle, lead) {
        (Some(c), Some(l)) => if l@ == 0 {
            None
        } else {
            Some((c@, l@))
        },
        _ => None,
    }
}

/// Cycle and lead time in milliseconds when the flow efficiency (their
/// ratio) is defined.
pub fn flow_parts(cycle: Option<Ms>, lead: Option<Ms>) -> (r: Option<(i64, i64)>)
    ensures
        r == flow_parts_of(cycle, lead),
{
    match (cycle, lead) {
        (Some(c), Some(l)) => if l.value() == 0 {
            None
        } else {
            Some((c.value(), l.value()))
        },
        _ => None,
    }
}

/// Throughput never exceeds the number of completion events: each event
/// completes at most one new task.
pub proof fn lemma_throughput_within_events(events: Seq<TaskEvent>)
    ensures
        distinct_task_count(events) <= events.len(),
{
    task_ids(events).lemma_cardinality_of_set();
}

/// The flow-efficiency parts are the cycle time over the lead time: when
/// present, the first is the cycle time and the second the (non-zero) lead
/// time; they are present whenever both times are known and the lead time
/// is not zero.
pub proof fn lemma_flow_parts_are_cycle_over_lead(cycle: Option<Ms>, lead: Option<Ms>)
    ensures
        flow_parts_of(cycle, lead) matches Some((num, den)) ==> (cycle matches Some(c) && c@ == num)
            && (lead matches Some(l) && l@ == den) && den != 0,
        (cycle matches Some(c) && lead matches Some(l) && l@ != 0) ==> flow_parts_of(cycle, lead) is Some,
{
}

} // verus!
