//! Status categories, the transitions allowed between them, and the status
//! entity.

use vstd::prelude::*;
use crate::domain::error::DomainError;
use crate::ident::{is_simple_id, new_simple_id};
use crate::text::{chars_of, push_str, str_eq, string_of};

verus! {

/// The five fixed categories that every status belongs to.
#[derive(Debug, Clone, Copy, PartialEq, Eq, Structural)]
pub enum StatusCategory {
    Backlog,
    Unstarted,
    Started,
    Completed,
    Canceled,
}

/// Whether the workflow allows a task to move from a status of category
/// `from` straight to one of category `to` (moves inside one category are
/// always allowed).
pub open spec fn transition_allowed(from: StatusCategory, to: StatusCategory) -> bool {
    from == to || allowed_targets(from).contains(to)
}

/// The categories reachable in one move from `from`, in the order they are
/// listed.
pub open spec fn allowed_targets(from: StatusCategory) -> Seq<StatusCategory> {
    match from {
        StatusCategory::Backlog => seq![StatusCategory::Unstarted, StatusCategory::Canceled],
        StatusCategory::Unstarted => seq![
            StatusCategory::Started,
            StatusCategory::Backlog,
            StatusCategory::Canceled,
        ],
        StatusCategory::Started => seq![
            StatusCategory::Unstarted,
            StatusCategory::Completed,
            StatusCategory::Canceled,
        ],
        StatusCategory::Completed => seq![StatusCategory::Started],
        StatusCategory::Canceled => seq![StatusCategory::Backlog],
    }
}

impl StatusCategory {
    /// The lowercase name of the category.
    pub open spec fn name(self) -> Seq<char> {
        match self {
            StatusCategory::Backlog => "backlog"@,
            StatusCategory::Unstarted => "unstarted"@,
            StatusCategory::Started => "started"@,
            StatusCategory::Completed => "completed"@,
            StatusCategory::Canceled => "canceled"@,
        }
    }

    /// The lowercase name of the category.
    pub fn as_str(&self) -> (r: &'static str)
        ensures
            r@ == self.name(),
    {
        match self {
            StatusCategory::Backlog => "backlog",
            StatusCategory::Unstarted => "unstarted",
            StatusCategory::Started => "started",
            StatusCategory::Completed => "completed",
            StatusCategory::Canceled => "canceled",
        }
    }

    /// The name as it is displayed.
    pub fn to_string(&self) -> (r: String)
        ensures
            r@ == self.name(),
    {
        self.as_str().to_owned()
    }

    /// The categories a task of this category may move to.
    pub fn allowed_transitions(self) -> (r: &'static [StatusCategory])
        ensures
            r@ == allowed_targets(self),
    {
        match self {
            StatusCategory::Backlog => &[StatusCategory::Unstarted, StatusCategory::Canceled],
            StatusCategory::Unstarted => &[
                StatusCategory::Started,
                StatusCategory::Backlog,
                StatusCategory::Canceled,
            ],
            StatusCategory::Started => &[
                StatusCategory::Unstarted,
                StatusCategory::Completed,
                StatusCategory::Canceled,
            ],
            StatusCategory::Completed => &[StatusCategory::Started],
            StatusCategory::Canceled => &[StatusCategory::Backlog],
        }
    }

    /// Whether a task of this category may move to category `to`.
    pub fn can_transition_to(self, to: StatusCategory) -> (r: bool)
        ensures
            r == transition_allowed(self, to),
    {
        if self == to {
            return true;
        }
        let allowed = self.allowed_transitions();
        let mut i: usize = 0;
        while i < allowed.len()
            invariant
                i <= allowed@.len(),
                allowed@ == allowed_targets(self),
                forall|j: int| 0 <= j < i ==> allowed@[j] != to,
            decreases allowed@.len() - i,
        {
            if allowed[i] == to {
                return true;
            }
            i = i + 1;
        }
        false
    }

    /// Parses a lowercase category name.
    pub fn from_str(s: &str) -> (r: Result<StatusCategory, DomainError>)
        ensures
            r matches Ok(c) ==> c.name() == s@,
            r is Err ==> forall|c: StatusCategory| c.name() != s@,
            r matches Err(e) ==> e.message() == "invalid status category: "@ + s@,
    {
        proof {
            reveal_strlit("backlog");
            reveal_strlit("unstarted");
            reveal_strlit("started");
            reveal_strlit("completed");
            reveal_strlit("canceled");
        }
        if str_eq(s, "backlog") {
            Ok(StatusCategory::Backlog)
        } else if str_eq(s, "unstarted") {
            Ok(StatusCategory::Unstarted)
        } else if str_eq(s, "started") {
            Ok(StatusCategory::Started)
        } else if str_eq(s, "completed") {
            Ok(StatusCategory::Completed)
        } else if str_eq(s, "canceled") {
            Ok(StatusCategory::Canceled)
        } else {
            let mut m = chars_of("invalid status category: ");
            push_str(&mut m, s);
            Err(DomainError::Validation(string_of(&m)))
        }
    }
}

impl std::str::FromStr for StatusCategory {
    type Err = DomainError;

    fn from_str(s: &str) -> (r: Result<StatusCategory, DomainError>)
        ensures
            r matches Ok(c) ==> c.name() == s@,
            r is Err ==> forall|c: StatusCategory| c.name() != s@,
            r matches Err(e) ==> e.message() == "invalid status category: "@ + s@,
    {
        StatusCategory::from_str(s)
    }
}

/// What a status holds: identifier, name, category and display position.
pub struct StatusView {
    pub id: Seq<char>,
    pub name: Seq<char>,
    pub category: StatusCategory,
    pub position: i64,
}

/// A named status of a task, belonging to one category.
#[derive(Debug, Clone, PartialEq, Eq)]
pub struct Status {
    id: String,
    name: String,
    category: StatusCategory,
    position: i64,
}

impl View for Status {
    type V = StatusView;

    closed spec fn view(&self) -> StatusView {
        StatusView { id: self.id@, name: self.name@, category: self.category, position: self.position }
    }
}

impl Status {
    /// Creates a status with a fresh identifier.
    pub fn new(name: &str, category: StatusCategory, position: i64) -> (r: Result<Status, DomainError>)
        ensures
            r is Err <==> name@.len() == 0,
            r matches Err(e) ==> e.message() == "Status name must not be empty"@,
            r matches Ok(s) ==> is_simple_id(s@.id) && s@.name == name@ && s@.category == category
                && s@.position == position,
    {
        if name.is_empty() {
            return Err(DomainError::Validation("Status name must not be empty".to_owned()));
        }
        Ok(Status { id: new_simple_id(), name: name.to_owned(), category, position })
    }

    /// Restores a status read back from storage.
    pub fn from_row(id: String, name: String, category: StatusCategory, position: i64) -> (r: Status)
        ensures
            r@ == (StatusView { id: id@, name: name@, category, position }),
    {
        Status { id, name, category, position }
    }

    pub fn id(&self) -> (r: &str)
        ensures
            r@ == self@.id,
    {
        self.id.as_str()
    }

    pub fn name(&self) -> (r: &str)
        ensures
            r@ == self@.name,
    {
        self.name.as_str()
    }

    pub fn category(&self) -> (r: StatusCategory)
        ensures
            r == self@.category,
    {
        self.category
    }

    pub fn position(&self) -> (r: i64)
        ensures
            r == self@.position,
    {
        self.position
    }
}

/// A task may always stay inside its category, and no category lists
/// itself among the moves out of it.
pub proof fn lemma_staying_is_allowed(c: StatusCategory)
    ensures
        transition_allowed(c, c),
        !allowed_targets(c).contains(c),
{
    let t = allowed_targets(c);
    assert forall|i: int| 0 <= i < t.len() implies t[i] != c by {
        match c {
            StatusCategory::Backlog => {},
            StatusCategory::Unstarted => {},
            StatusCategory::Started => {},
            StatusCategory::Completed => {},
            StatusCategory::Canceled => {},
        }
    }
}

/// A done task can only go back to work: the one move out of a completed
/// category is to a started one.
pub proof fn lemma_done_only_reopens(to: StatusCategory)
    ensures
        transition_allowed(StatusCategory::Completed, to) <==> (to == StatusCategory::Completed
            || to == StatusCategory::Started),
{
    let t = allowed_targets(StatusCategory::Completed);
    if t.contains(to) {
        let i = choose|i: int| 0 <= i < t.len() && t[i] == to;
        assert(i == 0);
    }
    if to == StatusCategory::Started {
        assert(t[0] == to);
    }
}

/// Different categories have different names, so parsing the name of a
/// category gives back that category.
pub proof fn lemma_category_names_distinct(a: StatusCategory, b: StatusCategory)
    requires
        a.name() == b.name(),
    ensures
        a == b,
{
    reveal_strlit("backlog");
    reveal_strlit("unstarted");
    reveal_strlit("started");
    reveal_strlit("completed");
    reveal_strlit("canceled");
    assert("backlog"@.len() == 7 && "backlog"@[0] == 'b');
    assert("unstarted"@.len() == 9 && "unstarted"@[0] == 'u');
    assert("started"@.len() == 7 && "started"@[0] == 's');
    assert("completed"@.len() == 9 && "completed"@[0] == 'c');
    assert("canceled"@.len() == 8 && "canceled"@[0] == 'c');
    assert(a.name().len() == b.name().len());
    assert(a.name()[0] == b.name()[0]);
}

/// The place of a category on the way a task is worked through: backlog,
/// then unstarted, started and completed. Canceled lies off that way.
pub open spec fn workflow_step(c: StatusCategory) -> int {
    match c {
        StatusCategory::Backlog => 0,
        StatusCategory::Unstarted => 1,
        StatusCategory::Started => 2,
        StatusCategory::Completed => 3,
        StatusCategory::Canceled => -1,
    }
}

/// Along the way backlog, unstarted, started, completed a task moves one
/// step at a time, forward or back: between two of these categories a
/// move is allowed exactly when they are at most one step apart. So a
/// task can be started from unstarted and completed from started, but
/// never skip a step.
pub proof fn lemma_moves_go_one_step(from: StatusCategory, to: StatusCategory)
    requires
        from != StatusCategory::Canceled,
        to != StatusCategory::Canceled,
    ensures
        transition_allowed(from, to) <==> -1 <= workflow_step(to) - workflow_step(from) <= 1,
{
    let t = allowed_targets(from);
    if t.contains(to) {
        let i = choose|i: int| 0 <= i < t.len() && t[i] == to;
        match from {
            StatusCategory::Backlog => { assert(i == 0 || i == 1); },
            StatusCategory::Unstarted => { assert(0 <= i < 3); },
            StatusCategory::Started => { assert(0 <= i < 3); },
            StatusCategory::Completed => { assert(i == 0); },
            StatusCategory::Canceled => {},
        }
    }
    if from != to && -1 <= workflow_step(to) - workflow_step(from) <= 1 {
        match (from, to) {
            (StatusCategory::Backlog, StatusCategory::Unstarted) => { assert(t[0] == to); },
            (StatusCategory::Unstarted, StatusCategory::Started) => { assert(t[0] == to); },
            (StatusCategory::Unstarted, StatusCategory::Backlog) => { assert(t[1] == to); },
            (StatusCategory::Started, StatusCategory::Unstarted) => { assert(t[0] == to); },
            (StatusCategory::Started, StatusCategory::Completed) => { assert(t[1] == to); },
            (StatusCategory::Completed, StatusCategory::Started) => { assert(t[0] == to); },
            _ => {},
        }
    }
}

/// A task can be canceled from every category but completed, and a
/// canceled task can only go back to the backlog.
pub proof fn lemma_cancel_moves(c: StatusCategory)
    ensures
        c != StatusCategory::Canceled ==> (transition_allowed(c, StatusCategory::Canceled) <==> c
            != StatusCategory::Completed),
        transition_allowed(StatusCategory::Canceled, c) <==> (c == StatusCategory::Canceled || c
            == StatusCategory::Backlog),
{
    let t = allowed_targets(c);
    let k = allowed_targets(StatusCategory::Canceled);
    if t.contains(StatusCategory::Canceled) {
        let i = choose|i: int| 0 <= i < t.len() && t[i] == StatusCategory::Canceled;
        match c {
            StatusCategory::Completed => { assert(i == 0); },
            _ => {},
        }
    }
    match c {
        StatusCategory::Backlog => { assert(t[1] == StatusCategory::Canceled); assert(k[0] == c); },
        StatusCategory::Unstarted => { assert(t[2] == StatusCategory::Canceled); },
        StatusCategory::Started => { assert(t[2] == StatusCategory::Canceled); },
        _ => {},
    }
    if k.contains(c) {
        let i = choose|i: int| 0 <= i < k.len() && k[i] == c;
        assert(i == 0);
    }
}

/// No category lists a target twice.
pub proof fn lemma_targets_listed_once(c: StatusCategory)
    ensures
        allowed_targets(c).no_duplicates(),
{
}

} // verus!
