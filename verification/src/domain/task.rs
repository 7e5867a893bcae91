//! Tasks, their labels and the events that record status changes.

use vstd::prelude::*;
use crate::domain::error::DomainError;
use crate::domain::project::ProjectPrefix;
use crate::domain::value::Timestamp;
use crate::ident::{is_simple_id, new_simple_id};
use crate::text::{chars_of, dec_i64, dec_int, push_all, push_str, str_eq, string_of};

verus! {

/// The `session_id` of events that the command line creates.
pub const CLI_SESSION_ID: &'static str = "CLI";

/// The kind of work a task is.
#[derive(Debug, Clone, Copy, PartialEq, Eq, Structural)]
pub enum Label {
    Feature,
    Bug,
    Refactor,
    Chore,
    Docs,
}

impl Label {
    /// The lowercase name of the label.
    pub open spec fn name(self) -> Seq<char> {
        match self {
            Label::Feature => "feature"@,
            Label::Bug => "bug"@,
            Label::Refactor => "refactor"@,
            Label::Chore => "chore"@,
            Label::Docs => "docs"@,
        }
    }

    pub fn as_str(&self) -> (r: &'static str)
        ensures
            r@ == self.name(),
    {
        match self {
            Label::Feature => "feature",
            Label::Bug => "bug",
            Label::Refactor => "refactor",
            Label::Chore => "chore",
            Label::Docs => "docs",
        }
    }

    /// The name as it is displayed.
    pub fn to_string(&self) -> (r: String)
        ensures
            r@ == self.name(),
    {
        self.as_str().to_owned()
    }

    /// Parses a lowercase label name.
    pub fn from_str(s: &str) -> (r: Result<Label, DomainError>)
        ensures
            r matches Ok(l) ==> l.name() == s@,
            r is Err ==> forall|l: Label| l.name() != s@,
            r matches Err(e) ==> e.message() == "invalid label: \""@ + s@
                + "\". must be one of: feature, bug, refactor, chore, docs"@,
    {
        proof {
            reveal_strlit("feature");
            reveal_strlit("bug");
            reveal_strlit("refactor");
            reveal_strlit("chore");
            reveal_strlit("docs");
        }
        if str_eq(s, "feature") {
            Ok(Label::Feature)
        } else if str_eq(s, "bug") {
            Ok(Label::Bug)
        } else if str_eq(s, "refactor") {
            Ok(Label::Refactor)
        } else if str_eq(s, "chore") {
            Ok(Label::Chore)
        } else if str_eq(s, "docs") {
            Ok(Label::Docs)
        } else {
            let mut m = chars_of("invalid label: \"");
            push_str(&mut m, s);
            push_str(&mut m, "\". must be one of: feature, bug, refactor, chore, docs");
            Err(DomainError::Validation(string_of(&m)))
        }
    }
}

impl std::str::FromStr for Label {
    type Err = DomainError;

    fn from_str(s: &str) -> (r: Result<Label, DomainError>)
        ensures
            r matches Ok(l) ==> l.name() == s@,
            r is Err ==> forall|l: Label| l.name() != s@,
            r matches Err(e) ==> e.message() == "invalid label: \""@ + s@
                + "\". must be one of: feature, bug, refactor, chore, docs"@,
    {
        Label::from_str(s)
    }
}

/// What a task holds.
pub struct TaskView {
    pub id: Seq<char>,
    pub title: Seq<char>,
    pub description: Seq<char>,
    pub label: Label,
    pub status_id: Seq<char>,
    pub project_id: Seq<char>,
    pub created_at: i64,
    pub updated_at: i64,
}

/// A unit of work, identified as `<prefix>-<sequence number>`.
#[derive(Debug, Clone, PartialEq, Eq)]
pub struct Task {
    id: String,
    title: String,
    description: String,
    label: Label,
    status_id: String,
    project_id: String,
    created_at: Timestamp,
    updated_at: Timestamp,
}

impl View for Task {
    type V = TaskView;

    closed spec fn view(&self) -> TaskView {
        TaskView {
            id: self.id@,
            title: self.title@,
            description: self.description@,
            label: self.label,
            status_id: self.status_id@,
            project_id: self.project_id@,
            created_at: self.created_at@,
            updated_at: self.updated_at@,
        }
    }
}

/// The identifier of the task numbered `seq` in a project with the given
/// prefix, such as `SEO-42`.
pub open spec fn task_id_text(prefix: Seq<char>, seq: int) -> Seq<char> {
    prefix + "-"@ + dec_int(seq)
}

impl Task {
    /// Creates task number `seq` of the project with `prefix`. Title and
    /// description must not be empty.
    pub fn new(
        prefix: &ProjectPrefix,
        seq: i64,
        title: &str,
        description: &str,
        label: Label,
        status_id: &str,
        project_id: &str,
        now: Timestamp,
    ) -> (r: Result<Task, DomainError>)
        ensures
            title@.len() == 0 ==> (r matches Err(e) && e.message() == "Task title must not be empty"@),
            title@.len() != 0 && description@.len() == 0 ==> (r matches Err(e) && e.message()
                == "Task description must not be empty"@),
            title@.len() != 0 && description@.len() != 0 ==> (r matches Ok(t) && t@ == (TaskView {
                id: task_id_text(prefix@, seq as int),
                title: title@,
                description: description@,
                label,
                status_id: status_id@,
                project_id: project_id@,
                created_at: now@,
                updated_at: now@,
            })),
    {
        if title.is_empty() {
            return Err(DomainError::Validation("Task title must not be empty".to_owned()));
        }
        if description.is_empty() {
            return Err(DomainError::Validation("Task description must not be empty".to_owned()));
        }
        let mut id = chars_of(prefix.as_str());
        push_str(&mut id, "-");
        let n = dec_i64(seq);
        push_all(&mut id, &n);
        Ok(
            Task {
                id: string_of(&id),
                title: title.to_owned(),
                description: description.to_owned(),
                label,
                status_id: status_id.to_owned(),
                project_id: project_id.to_owned(),
                created_at: now,
                updated_at: now,
            },
        )
    }

    /// Restores a task read back from storage.
    pub fn from_row(
        id: String,
        title: String,
        description: String,
        label: Label,
        status_id: String,
        project_id: String,
        created_at: Timestamp,
        updated_at: Timestamp,
    ) -> (r: Task)
        ensures
            r@ == (TaskView {
                id: id@,
                title: title@,
                description: description@,
                label,
                status_id: status_id@,
                project_id: project_id@,
                created_at: created_at@,
                updated_at: updated_at@,
            }),
    {
        Task { id, title, description, label, status_id, project_id, created_at, updated_at }
    }

    pub fn id(&self) -> (r: &str)
        ensures
            r@ == self@.id,
    {
        self.id.as_str()
    }

    pub fn title(&self) -> (r: &str)
        ensures
            r@ == self@.title,
    {
        self.title.as_str()
    }

    pub fn description(&self) -> (r: &str)
        ensures
            r@ == self@.description,
    {
        self.description.as_str()
    }

    pub fn label(&self) -> (r: Label)
        ensures
            r == self@.label,
    {
        self.label
    }

    pub fn status_id(&self) -> (r: &str)
        ensures
            r@ == self@.status_id,
    {
        self.status_id.as_str()
    }

    pub fn project_id(&self) -> (r: &str)
        ensures
            r@ == self@.project_id,
    {
        self.project_id.as_str()
    }

    pub fn created_at(&self) -> (r: Timestamp)
        ensures
            r@ == self@.created_at,
    {
        self.created_at
    }

    pub fn updated_at(&self) -> (r: Timestamp)
        ensures
            r@ == self@.updated_at,
    {
        self.updated_at
    }
}

/// What a status-change event holds.
pub struct TaskEventView {
    pub id: Seq<char>,
    pub task_id: Seq<char>,
    pub from_status: Option<Seq<char>>,
    pub to_status: Seq<char>,
    pub session_id: Seq<char>,
    pub timestamp: i64,
}

/// The text of an optional string.
pub open spec fn opt_view(s: Option<String>) -> Option<Seq<char>> {
    match s {
        Some(t) => Some(t@),
        None => None,
    }
}

/// A change of a task's status, from an earlier status (none for a new task)
/// to a new one.
#[derive(Debug, Clone, PartialEq, Eq)]
pub struct TaskEvent {
    id: String,
    task_id: String,
    from_status: Option<String>,
    to_status: String,
    session_id: String,
    timestamp: Timestamp,
}

impl View for TaskEvent {
    type V = TaskEventView;

    closed spec fn view(&self) -> TaskEventView {
        TaskEventView {
            id: self.id@,
            task_id: self.task_id@,
            from_status: opt_view(self.from_status),
            to_status: self.to_status@,
            session_id: self.session_id@,
            timestamp: self.timestamp@,
        }
    }
}

impl TaskEvent {
    /// Records a status change under a fresh identifier.
    pub fn new(
        task_id: &str,
        from_status: Option<&str>,
        to_status: &str,
        session_id: &str,
        timestamp: Timestamp,
    ) -> (r: TaskEvent)
        ensures
            is_simple_id(r@.id),
            r@.task_id == task_id@,
            r@.from_status == (match from_status {
                Some(s) => Some(s@),
                None => None,
            }),
            r@.to_status == to_status@,
            r@.session_id == session_id@,
            r@.timestamp == timestamp@,
    {
        let from = match from_status {
            Some(s) => Some(s.to_owned()),
            None => None,
        };
        TaskEvent {
            id: new_simple_id(),
            task_id: task_id.to_owned(),
            from_status: from,
            to_status: to_status.to_owned(),
            session_id: session_id.to_owned(),
            timestamp,
        }
    }

    /// Restores an event read back from storage.
    pub fn from_row(
        id: String,
        task_id: String,
        from_status: Option<String>,
        to_status: String,
        session_id: String,
        timestamp: Timestamp,
    ) -> (r: TaskEvent)
        ensures
            r@ == (TaskEventView {
                id: id@,
                task_id: task_id@,
                from_status: opt_view(from_status),
                to_status: to_status@,
                session_id: session_id@,
                timestamp: timestamp@,
            }),
    {
        TaskEvent { id, task_id, from_status, to_status, session_id, timestamp }
    }

    pub fn id(&self) -> (r: &str)
        ensures
            r@ == self@.id,
    {
        self.id.as_str()
    }

    pub fn task_id(&self) -> (r: &str)
        ensures
            r@ == self@.task_id,
    {
        self.task_id.as_str()
    }

    pub fn from_status(&self) -> (r: Option<&str>)
        ensures
            match r {
                Some(s) => self@.from_status == Some(s@),
                None => self@.from_status is None,
            },
    {
        match &self.from_status {
            Some(s) => Some(s.as_str()),
            None => None,
        }
    }

    pub fn to_status(&self) -> (r: &str)
        ensures
            r@ == self@.to_status,
    {
        self.to_status.as_str()
    }

    pub fn session_id(&self) -> (r: &str)
        ensures
            r@ == self@.session_id,
    {
        self.session_id.as_str()
    }

    pub fn timestamp(&self) -> (r: Timestamp)
        ensures
            r@ == self@.timestamp,
    {
        self.timestamp
    }
}

/// Different labels have different names, so parsing the name of a label
/// gives back that label.
pub proof fn lemma_label_names_distinct(a: Label, b: Label)
    requires
        a.name() == b.name(),
    ensures
        a == b,
{
    reveal_strlit("feature");
    reveal_strlit("bug");
    reveal_strlit("refactor");
    reveal_strlit("chore");
    reveal_strlit("docs");
    assert("feature"@.len() == 7 && "feature"@[0] == 'f');
    assert("bug"@.len() == 3 && "bug"@[0] == 'b');
    assert("refactor"@.len() == 8 && "refactor"@[0] == 'r');
    assert("chore"@.len() == 5 && "chore"@[0] == 'c');
    assert("docs"@.len() == 4 && "docs"@[0] == 'd');
    assert(a.name().len() == b.name().len());
    assert(a.name()[0] == b.name()[0]);
}

} // verus!
