//! Cycles: time-boxed goals of a workspace, their derived status and the
//! way tasks are assigned to them.

use vstd::prelude::*;
use crate::domain::error::DomainError;
use crate::ident::{is_simple_id, new_simple_id};
use crate::text::{chars_of, push_str, str_eq, string_of};
use crate::domain::value::Timestamp;
use crate::time::{parse_ymd_day, ymd_day_number};

verus! {

/// The status of a cycle, derived from its dates and the current day.
#[derive(Debug, Clone, Copy, PartialEq, Eq, Structural)]
pub enum CycleStatus {
    Planned,
    Active,
    Completed,
}

impl CycleStatus {
    /// The lowercase name of the status.
    pub open spec fn name(self) -> Seq<char> {
        match self {
            CycleStatus::Planned => "planned"@,
            CycleStatus::Active => "active"@,
            CycleStatus::Completed => "completed"@,
        }
    }

    pub fn as_str(&self) -> (r: &'static str)
        ensures
            r@ == self.name(),
    {
        match self {
            CycleStatus::Planned => "planned",
            CycleStatus::Active => "active",
            CycleStatus::Completed => "completed",
        }
    }

    /// The name as it is displayed.
    pub fn to_string(&self) -> (r: String)
        ensures
            r@ == self.name(),
    {
        self.as_str().to_owned()
    }

    /// Parses a lowercase status name.
    pub fn from_str(s: &str) -> (r: Result<CycleStatus, DomainError>)
        ensures
            r matches Ok(c) ==> c.name() == s@,
            r is Err ==> forall|c: CycleStatus| c.name() != s@,
            r matches Err(e) ==> e.message() == "Invalid CycleStatus: \""@ + s@
                + "\". Must be one of: planned, active, completed"@,
    {
        proof {
            reveal_strlit("planned");
            reveal_strlit("active");
            reveal_strlit("completed");
        }
        if str_eq(s, "planned") {
            Ok(CycleStatus::Planned)
        } else if str_eq(s, "active") {
            Ok(CycleStatus::Active)
        } else if str_eq(s, "completed") {
            Ok(CycleStatus::Completed)
        } else {
            let mut m = chars_of("Invalid CycleStatus: \"");
            push_str(&mut m, s);
            push_str(&mut m, "\". Must be one of: planned, active, completed");
            Err(DomainError::Validation(string_of(&m)))
        }
    }
}

impl std::str::FromStr for CycleStatus {
    type Err = DomainError;

    fn from_str(s: &str) -> (r: Result<CycleStatus, DomainError>)
        ensures
            r matches Ok(c) ==> c.name() == s@,
            r is Err ==> forall|c: CycleStatus| c.name() != s@,
            r matches Err(e) ==> e.message() == "Invalid CycleStatus: \""@ + s@
                + "\". Must be one of: planned, active, completed"@,
    {
        CycleStatus::from_str(s)
    }
}

/// How a task came to belong to a cycle: assigned on purpose, or included
/// automatically when it was created or moved.
#[derive(Debug, Clone, Copy, PartialEq, Eq, Structural)]
pub enum Assigned {
    Planned,
    Auto,
}

impl Assigned {
    pub open spec fn name(self) -> Seq<char> {
        match self {
            Assigned::Planned => "planned"@,
            Assigned::Auto => "auto"@,
        }
    }

    pub fn as_str(&self) -> (r: &'static str)
        ensures
            r@ == self.name(),
    {
        match self {
            Assigned::Planned => "planned",
            Assigned::Auto => "auto",
        }
    }

    /// The name as it is displayed.
    pub fn to_string(&self) -> (r: String)
        ensures
            r@ == self.name(),
    {
        self.as_str().to_owned()
    }

    /// Parses a lowercase assignment kind.
    pub fn from_str(s: &str) -> (r: Result<Assigned, DomainError>)
        ensures
            r matches Ok(a) ==> a.name() == s@,
            r is Err ==> forall|a: Assigned| a.name() != s@,
            r matches Err(e) ==> e.message() == "Invalid Assigned: \""@ + s@
                + "\". Must be one of: planned, auto"@,
    {
        proof {
            reveal_strlit("planned");
            reveal_strlit("auto");
        }
        if str_eq(s, "planned") {
            Ok(Assigned::Planned)
        } else if str_eq(s, "auto") {
            Ok(Assigned::Auto)
        } else {
            let mut m = chars_of("Invalid Assigned: \"");
            push_str(&mut m, s);
            push_str(&mut m, "\". Must be one of: planned, auto");
            Err(DomainError::Validation(string_of(&m)))
        }
    }
}

impl std::str::FromStr for Assigned {
    type Err = DomainError;

    fn from_str(s: &str) -> (r: Result<Assigned, DomainError>)
        ensures
            r matches Ok(a) ==> a.name() == s@,
            r is Err ==> forall|a: Assigned| a.name() != s@,
            r matches Err(e) ==> e.message() == "Invalid Assigned: \""@ + s@
                + "\". Must be one of: planned, auto"@,
    {
        Assigned::from_str(s)
    }
}

/// The message for a date that is not written `YYYY-MM-DD`.
pub open spec fn bad_date_message(s: Seq<char>) -> Seq<char> {
    "Invalid date format: \""@ + s + "\". Expected YYYY-MM-DD"@
}

/// The message for a start date after the end date.
pub open spec fn date_order_message(start: Seq<char>, end: Seq<char>) -> Seq<char> {
    "start_date ("@ + start + ") must not be after end_date ("@ + end + ")"@
}

/// Reads a `YYYY-MM-DD` date as its day number.
pub fn parse_date(date_str: &str) -> (r: Result<i32, DomainError>)
    ensures
        r matches Ok(d) ==> ymd_day_number(date_str@) == Some(d),
        r is Err ==> ymd_day_number(date_str@) is None,
        r matches Err(e) ==> e.message() == bad_date_message(date_str@),
{
    match parse_ymd_day(date_str) {
        Some(d) => Ok(d),
        None => Err(bad_date_error(date_str)),
    }
}

fn bad_date_error(date_str: &str) -> (e: DomainError)
    ensures
        e.message() == bad_date_message(date_str@),
{
    let mut m = chars_of("Invalid date format: \"");
    push_str(&mut m, date_str);
    push_str(&mut m, "\". Expected YYYY-MM-DD");
    DomainError::Validation(string_of(&m))
}

/// The outcome of checking a date range, given what parsing each date gave:
/// the first unreadable date is reported, then a start after the end.
pub open spec fn date_order_outcome(
    start: Seq<char>,
    end: Seq<char>,
    start_day: Option<i32>,
    end_day: Option<i32>,
) -> Result<(), Seq<char>> {
    match (start_day, end_day) {
        (None, _) => Err(bad_date_message(start)),
        (Some(_), None) => Err(bad_date_message(end)),
        (Some(s), Some(e)) => if s > e {
            Err(date_order_message(start, end))
        } else {
            Ok(())
        },
    }
}

/// The message of an error result, or the unit of a success.
pub open spec fn outcome_of(r: Result<(), DomainError>) -> Result<(), Seq<char>> {
    match r {
        Ok(()) => Ok(()),
        Err(e) => Err(e.message()),
    }
}

/// Checks a date range once both dates have been parsed.
pub fn check_date_order(
    start_date: &str,
    end_date: &str,
    start_day: Option<i32>,
    end_day: Option<i32>,
) -> (r: Result<(), DomainError>)
    ensures
        outcome_of(r) == date_order_outcome(start_date@, end_date@, start_day, end_day),
{
    match start_day {
        None => Err(bad_date_error(start_date)),
        Some(s) => match end_day {
            None => Err(bad_date_error(end_date)),
            Some(e) => {
                if s > e {
                    let mut m = chars_of("start_date (");
                    push_str(&mut m, start_date);
                    push_str(&mut m, ") must not be after end_date (");
                    push_str(&mut m, end_date);
                    push_str(&mut m, ")");
                    Err(DomainError::Validation(string_of(&m)))
                } else {
                    Ok(())
                }
            },
        },
    }
}

/// Checks that both dates are written `YYYY-MM-DD` and that the start is
/// not after the end.
pub fn validate_date_order(start_date: &str, end_date: &str) -> (r: Result<(), DomainError>)
    ensures
        outcome_of(r) == date_order_outcome(
            start_date@,
            end_date@,
            ymd_day_number(start_date@),
            ymd_day_number(end_date@),
        ),
{
    let s = parse_ymd_day(start_date);
    let e = parse_ymd_day(end_date);
    check_date_order(start_date, end_date, s, e)
}

/// The status of a cycle on day `today`: planned before its start, completed
/// after its end, active in between (both ends included). A date that cannot
/// be read counts as `today`.
pub open spec fn status_on(start_day: Option<i32>, end_day: Option<i32>, today: i32) -> CycleStatus {
    let s = match start_day { Some(d) => d, None => today };
    let e = match end_day { Some(d) => d, None => today };
    if today < s {
        CycleStatus::Planned
    } else if today > e {
        CycleStatus::Completed
    } else {
        CycleStatus::Active
    }
}

/// The status on day `today` once both dates have been parsed.
pub fn status_from_days(start_day: Option<i32>, end_day: Option<i32>, today: i32) -> (r: CycleStatus)
    ensures
        r == status_on(start_day, end_day, today),
{
    let s = match start_day { Some(d) => d, None => today };
    let e = match end_day { Some(d) => d, None => today };
    if today < s {
        CycleStatus::Planned
    } else if today > e {
        CycleStatus::Completed
    } else {
        CycleStatus::Active
    }
}

/// Derives the status of a cycle with the given `YYYY-MM-DD` dates on the
/// day numbered `today`.
pub fn derive_status(start_date: &str, end_date: &str, today: i32) -> (r: CycleStatus)
    ensures
        r == status_on(ymd_day_number(start_date@), ymd_day_number(end_date@), today),
{
    status_from_days(parse_ymd_day(start_date), parse_ymd_day(end_date), today)
}

/// What a cycle holds apart from its timestamps.
pub struct CycleView {
    pub id: Seq<char>,
    pub workspace_id: Seq<char>,
    pub name: Seq<char>,
    pub start_date: Seq<char>,
    pub end_date: Seq<char>,
    pub created_at: i64,
    pub updated_at: i64,
}

/// A time-boxed goal of a workspace. Its status is not stored: it follows
/// from the dates and the current day.
#[derive(Debug, Clone, PartialEq, Eq)]
pub struct Cycle {
    id: String,
    workspace_id: String,
    name: String,
    start_date: String,
    end_date: String,
    created_at: Timestamp,
    updated_at: Timestamp,
}

impl View for Cycle {
    type V = CycleView;

    closed spec fn view(&self) -> CycleView {
        CycleView {
            id: self.id@,
            workspace_id: self.workspace_id@,
            name: self.name@,
            start_date: self.start_date@,
            end_date: self.end_date@,
            created_at: self.created_at@,
            updated_at: self.updated_at@,
        }
    }
}

impl Cycle {
    /// Creates a cycle with a fresh identifier. The name must not be empty and
    /// the dates must form a valid range.
    pub fn new(
        workspace_id: &str,
        name: &str,
        start_date: &str,
        end_date: &str,
        now: Timestamp,
    ) -> (r: Result<Cycle, DomainError>)
        ensures
            name@.len() == 0 ==> (r matches Err(e) && e.message() == "Cycle name must not be empty"@),
            name@.len() != 0 ==> match r {
                Ok(_) => date_order_outcome(
                    start_date@,
                    end_date@,
                    ymd_day_number(start_date@),
                    ymd_day_number(end_date@),
                ) == Ok::<(), Seq<char>>(()),
                Err(e) => date_order_outcome(
                    start_date@,
                    end_date@,
                    ymd_day_number(start_date@),
                    ymd_day_number(end_date@),
                ) == Err::<(), Seq<char>>(e.message()),
            },
            r matches Ok(c) ==> is_simple_id(c@.id) && c@.workspace_id == workspace_id@ && c@.name
                == name@ && c@.start_date == start_date@ && c@.end_date == end_date@ && c@.created_at
                == now@ && c@.updated_at == now@,
    {
        if name.is_empty() {
            return Err(DomainError::Validation("Cycle name must not be empty".to_owned()));
        }
        match validate_date_order(start_date, end_date) {
            Err(e) => Err(e),
            Ok(()) => Ok(
                Cycle {
                    id: new_simple_id(),
                    workspace_id: workspace_id.to_owned(),
                    name: name.to_owned(),
                    start_date: start_date.to_owned(),
                    end_date: end_date.to_owned(),
                    created_at: now,
                    updated_at: now,
                },
            ),
        }
    }

    /// Restores a cycle read back from storage.
    pub fn from_row(
        id: String,
        workspace_id: String,
        name: String,
        start_date: String,
        end_date: String,
        created_at: Timestamp,
        updated_at: Timestamp,
    ) -> (r: Cycle)
        ensures
            r@ == (CycleView {
                id: id@,
                workspace_id: workspace_id@,
                name: name@,
                start_date: start_date@,
                end_date: end_date@,
                created_at: created_at@,
                updated_at: updated_at@,
            }),
    {
        Cycle { id, workspace_id, name, start_date, end_date, created_at, updated_at }
    }

    /// The status of the cycle on day `today`.
    pub fn status(&self, today: i32) -> (r: CycleStatus)
        ensures
            r == status_on(ymd_day_number(self@.start_date), ymd_day_number(self@.end_date), today),
    {
        derive_status(self.start_date.as_str(), self.end_date.as_str(), today)
    }

    pub fn id(&self) -> (r: &str)
        ensures
            r@ == self@.id,
    {
        self.id.as_str()
    }

    pub fn workspace_id(&self) -> (r: &str)
        ensures
            r@ == self@.workspace_id,
    {
        self.workspace_id.as_str()
    }

    pub fn name(&self) -> (r: &str)
        ensures
            r@ == self@.name,
    {
        self.name.as_str()
    }

    pub fn start_date(&self) -> (r: &str)
        ensures
            r@ == self@.start_date,
    {
        self.start_date.as_str()
    }

    pub fn end_date(&self) -> (r: &str)
        ensures
            r@ == self@.end_date,
    {
        self.end_date.as_str()
    }

    pub fn created_at(&self) -> (r: Timestamp)
        ensures
            r@ == self@.created_at,
    {
        self.created_at
    }

    pub fn updated_at(&self) -> (r: Timestamp)
        ensures
            r@ == self@.updated_at,
    {
        self.updated_at
    }
}

/// Different cycle statuses have different names, and so do the two kinds
/// of assignment: parsing a name gives back what it names.
pub proof fn lemma_cycle_names_distinct(a: CycleStatus, b: CycleStatus, x: Assigned, y: Assigned)
    ensures
        a.name() == b.name() ==> a == b,
        x.name() == y.name() ==> x == y,
{
    reveal_strlit("planned");
    reveal_strlit("active");
    reveal_strlit("completed");
    reveal_strlit("auto");
    if a != b && a.name() == b.name() {
        assert(a.name()[0] != b.name()[0]);
    }
    if x != y && x.name() == y.name() {
        assert(x.name()[0] != y.name()[0]);
    }
}

/// The order a cycle's status goes through: planned, active, completed.
pub open spec fn stage(s: CycleStatus) -> int {
    match s {
        CycleStatus::Planned => 0,
        CycleStatus::Active => 1,
        CycleStatus::Completed => 2,
    }
}

/// A cycle's status never goes back as the days pass.
pub proof fn lemma_status_never_goes_back(
    start_day: Option<i32>,
    end_day: Option<i32>,
    earlier: i32,
    later: i32,
)
    requires
        earlier <= later,
    ensures
        stage(status_on(start_day, end_day, earlier)) <= stage(status_on(start_day, end_day, later)),
{
}

/// With dates in order, a cycle is active exactly from its start day to its
/// end day, both included.
pub proof fn lemma_active_between_dates(start_day: i32, end_day: i32, today: i32)
    ensures
        status_on(Some(start_day), Some(end_day), today) == CycleStatus::Active <==> start_day
            <= today <= end_day,
{
}

} // verus!
