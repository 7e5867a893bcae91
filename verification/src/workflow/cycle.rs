//! Decisions of the cycle commands: which requests are refused, which date
//! range an update ends with, and what an overlap or a missing record is
//! reported as.

use vstd::prelude::*;

use crate::domain::error::DomainError;
use crate::text::{chars_of, push_str, string_of};

verus! {

/// The message for an update that names no field.
pub open spec fn no_field_message() -> Seq<char> {
    "At least one field (name, start, end) must be provided"@
}

/// The message for an empty cycle name.
pub open spec fn empty_name_message() -> Seq<char> {
    "Cycle name must not be empty"@
}

/// Checks an update request before anything is read: at least one field
/// must be given, and a given name must not be empty.
pub fn check_update_request(
    name: Option<&str>,
    start_date: Option<&str>,
    end_date: Option<&str>,
) -> (r: Result<(), DomainError>)
    ensures
        (name is None && start_date is None && end_date is None) ==> (r matches Err(e)
            && e.message() == no_field_message()),
        !(name is None && start_date is None && end_date is None) ==> match name {
            Some(n) => if n@.len() == 0 {
                r matches Err(e) && e.message() == empty_name_message()
            } else {
                r is Ok
            },
            None => r is Ok,
        },
{
    if name.is_none() && start_date.is_none() && end_date.is_none() {
        return Err(
            DomainError::Validation(
                "At least one field (name, start, end) must be provided".to_owned(),
            ),
        );
    }
    match name {
        Some(n) => if n.is_empty() {
            Err(DomainError::Validation("Cycle name must not be empty".to_owned()))
        } else {
            Ok(())
        },
        None => Ok(()),
    }
}

/// The date range an update leaves the cycle with: `None` when the update
/// changes no date, otherwise each given date replacing the stored one.
pub fn updated_range<'a>(
    stored_start: &'a str,
    stored_end: &'a str,
    start_date: Option<&'a str>,
    end_date: Option<&'a str>,
) -> (r: Option<(&'a str, &'a str)>)
    ensures
        (start_date is None && end_date is None) ==> r is None,
        !(start_date is None && end_date is None) ==> (r matches Some(p) && p.0@ == (match start_date {
            Some(s) => s@,
            None => stored_start@,
        }) && p.1@ == (match end_date {
            Some(e) => e@,
            None => stored_end@,
        })),
{
    if start_date.is_none() && end_date.is_none() {
        return None;
    }
    let s = match start_date {
        Some(s) => s,
        None => stored_start,
    };
    let e = match end_date {
        Some(e) => e,
        None => stored_end,
    };
    Some((s, e))
}

/// The message for a range that overlaps a cycle of the same workspace.
pub open spec fn overlap_message(start: Seq<char>, end: Seq<char>, other: Seq<char>) -> Seq<char> {
    "Date range "@ + start + "~"@ + end + " overlaps with existing cycle \""@ + other + "\""@
}

/// Refuses a range when some other cycle of the workspace overlaps it,
/// naming the first one found.
pub fn check_overlap(start_date: &str, end_date: &str, overlapping: &[String]) -> (r: Result<
    (),
    DomainError,
>)
    ensures
        overlapping@.len() == 0 ==> r is Ok,
        overlapping@.len() > 0 ==> (r matches Err(e) && e.message() == overlap_message(
            start_date@,
            end_date@,
            overlapping@[0]@,
        )),
{
    if overlapping.len() == 0 {
        return Ok(());
    }
    let mut m = chars_of("Date range ");
    push_str(&mut m, start_date);
    push_str(&mut m, "~");
    push_str(&mut m, end_date);
    push_str(&mut m, " overlaps with existing cycle \"");
    push_str(&mut m, overlapping[0].as_str());
    push_str(&mut m, "\"");
    Err(DomainError::Validation(string_of(&m)))
}

/// `<kind> "<id>" not found`.
pub open spec fn not_found_message(kind: Seq<char>, id: Seq<char>) -> Seq<char> {
    kind + " \""@ + id + "\" not found"@
}

/// The error for a record that does not exist.
pub fn not_found(kind: &str, id: &str) -> (e: DomainError)
    ensures
        e.message() == not_found_message(kind@, id@),
{
    let mut m = chars_of(kind);
    push_str(&mut m, " \"");
    push_str(&mut m, id);
    push_str(&mut m, "\" not found");
    DomainError::Validation(string_of(&m))
}

/// The message for assigning a task twice to a cycle.
pub open spec fn already_assigned_message(task_id: Seq<char>, cycle_id: Seq<char>) -> Seq<char> {
    "Task \""@ + task_id + "\" is already assigned to cycle \""@ + cycle_id + "\""@
}

/// The message for removing an assignment that does not exist.
pub open spec fn not_assigned_message(task_id: Seq<char>, cycle_id: Seq<char>) -> Seq<char> {
    "Task \""@ + task_id + "\" is not assigned to cycle \""@ + cycle_id + "\""@
}

/// Decides an assignment once the store has answered: the cycle must exist,
/// then the task, and the task must not be assigned to the cycle yet.
pub fn check_assign(
    cycle_id: &str,
    task_id: &str,
    cycle_exists: bool,
    task_exists: bool,
    already_assigned: bool,
) -> (r: Result<(), DomainError>)
    ensures
        !cycle_exists ==> (r matches Err(e) && e.message() == not_found_message("Cycle"@, cycle_id@)),
        cycle_exists && !task_exists ==> (r matches Err(e) && e.message() == not_found_message(
            "Task"@,
            task_id@,
        )),
        cycle_exists && task_exists && already_assigned ==> (r matches Err(e) && e.message()
            == already_assigned_message(task_id@, cycle_id@)),
        cycle_exists && task_exists && !already_assigned ==> r is Ok,
{
    if !cycle_exists {
        return Err(not_found("Cycle", cycle_id));
    }
    if !task_exists {
        return Err(not_found("Task", task_id));
    }
    if already_assigned {
        let mut m = chars_of("Task \"");
        push_str(&mut m, task_id);
        push_str(&mut m, "\" is already assigned to cycle \"");
        push_str(&mut m, cycle_id);
        push_str(&mut m, "\"");
        return Err(DomainError::Validation(string_of(&m)));
    }
    Ok(())
}

/// Decides an unassignment once the store has said whether a row went.
pub fn check_unassign(cycle_id: &str, task_id: &str, deleted: bool) -> (r: Result<(), DomainError>)
    ensures
        deleted ==> r is Ok,
        !deleted ==> (r matches Err(e) && e.message() == not_assigned_message(task_id@, cycle_id@)),
{
    if deleted {
        return Ok(());
    }
    let mut m = chars_of("Task \"");
    push_str(&mut m, task_id);
    push_str(&mut m, "\" is not assigned to cycle \"");
    push_str(&mut m, cycle_id);
    push_str(&mut m, "\"");
    Err(DomainError::Validation(string_of(&m)))
}

} // verus!
