//! Projects and the three-letter prefix of their task identifiers.

use vstd::prelude::*;
use crate::domain::error::DomainError;
use crate::domain::value::Timestamp;
use crate::ident::{is_simple_id, new_simple_id};
use crate::text::{chars_of, push_str, string_of};

verus! {

/// An ASCII capital letter.
pub open spec fn is_upper(c: char) -> bool {
    'A' <= c && c <= 'Z'
}

/// An ASCII letter.
pub open spec fn is_letter(c: char) -> bool {
    ('A' <= c && c <= 'Z') || ('a' <= c && c <= 'z')
}

/// The capital form of an ASCII letter; other characters stay as they are.
pub open spec fn upper(c: char) -> char {
    if 'a' <= c && c <= 'z' {
        ((c as u32) - 32) as char
    } else {
        c
    }
}

/// Exactly three ASCII capital letters.
pub open spec fn is_prefix_text(s: Seq<char>) -> bool {
    s.len() == 3 && is_upper(s[0]) && is_upper(s[1]) && is_upper(s[2])
}

/// The three capital letters that prefix every task identifier of a
/// project (`SEO` gives `SEO-1`, `SEO-2`, ...).
#[derive(Debug, Clone, PartialEq, Eq, Hash)]
pub struct ProjectPrefix(String);

impl View for ProjectPrefix {
    type V = Seq<char>;

    closed spec fn view(&self) -> Seq<char> {
        self.0@
    }
}

fn upper_char(c: char) -> (r: char)
    ensures
        r == upper(c),
{
    if 'a' <= c && c <= 'z' {
        ((c as u8) - 32) as char
    } else {
        c
    }
}

impl ProjectPrefix {
    /// A prefix always holds three capital letters.
    pub closed spec fn well_formed(self) -> bool {
        is_prefix_text(self.0@)
    }

    /// Accepts exactly three ASCII capital letters.
    pub fn new(value: &str) -> (r: Result<ProjectPrefix, DomainError>)
        ensures
            r is Ok <==> is_prefix_text(value@),
            r matches Ok(p) ==> p@ == value@,
            r matches Err(e) ==> e.message()
                == "ProjectPrefix must be exactly 3 uppercase ASCII letters, got: \""@ + value@
                + "\""@,
    {
        let v = chars_of(value);
        if v.len() == 3 && ('A' <= v[0] && v[0] <= 'Z') && ('A' <= v[1] && v[1] <= 'Z') && (
        'A' <= v[2] && v[2] <= 'Z') {
            Ok(ProjectPrefix(value.to_owned()))
        } else {
            let mut m = chars_of("ProjectPrefix must be exactly 3 uppercase ASCII letters, got: \"");
            push_str(&mut m, value);
            push_str(&mut m, "\"");
            Err(DomainError::Validation(string_of(&m)))
        }
    }

    /// Derives a prefix from the first three characters of a name, which must
    /// be ASCII letters; they are capitalised.
    pub fn from_name(name: &str) -> (r: Result<ProjectPrefix, DomainError>)
        ensures
            r is Ok <==> (name@.len() >= 3 && is_letter(name@[0]) && is_letter(name@[1])
                && is_letter(name@[2])),
            r matches Ok(p) ==> p@ == seq![upper(name@[0]), upper(name@[1]), upper(name@[2])],
            r matches Err(e) ==> e.message() == "Cannot derive ProjectPrefix from name \""@ + name@
                + "\": first 3 characters must be ASCII letters. Use --prefix to specify manually."@,
    {
        let v = chars_of(name);
        if v.len() < 3 || !(('A' <= v[0] && v[0] <= 'Z') || ('a' <= v[0] && v[0] <= 'z')) || !((
        'A' <= v[1] && v[1] <= 'Z') || ('a' <= v[1] && v[1] <= 'z')) || !(('A' <= v[2] && v[2]
            <= 'Z') || ('a' <= v[2] && v[2] <= 'z')) {
            let mut m = chars_of("Cannot derive ProjectPrefix from name \"");
            push_str(&mut m, name);
            push_str(
                &mut m,
                "\": first 3 characters must be ASCII letters. Use --prefix to specify manually.",
            );
            return Err(DomainError::Validation(string_of(&m)));
        }
        let mut p: Vec<char> = Vec::new();
        p.push(upper_char(v[0]));
        p.push(upper_char(v[1]));
        p.push(upper_char(v[2]));
        assert(p@ =~= seq![upper(name@[0]), upper(name@[1]), upper(name@[2])]);
        let text = string_of(&p);
        match ProjectPrefix::new(text.as_str()) {
            Ok(prefix) => Ok(prefix),
            Err(e) => Err(e),
        }
    }

    pub fn as_str(&self) -> (r: &str)
        ensures
            r@ == self@,
    {
        self.0.as_str()
    }

    /// The prefix as it is displayed.
    pub fn to_string(&self) -> (r: String)
        ensures
            r@ == self@,
    {
        self.0.clone()
    }
}

/// What a project holds.
pub struct ProjectView {
    pub id: Seq<char>,
    pub name: Seq<char>,
    pub prefix: Seq<char>,
    pub goal: Seq<char>,
    pub next_seq: i64,
    pub created_at: i64,
    pub updated_at: i64,
}

/// A set of tasks with a common goal.
#[derive(Debug, Clone, PartialEq, Eq)]
pub struct Project {
    id: String,
    name: String,
    prefix: ProjectPrefix,
    goal: String,
    next_seq: i64,
    created_at: Timestamp,
    updated_at: Timestamp,
}

impl View for Project {
    type V = ProjectView;

    closed spec fn view(&self) -> ProjectView {
        ProjectView {
            id: self.id@,
            name: self.name@,
            prefix: self.prefix@,
            goal: self.goal@,
            next_seq: self.next_seq,
            created_at: self.created_at@,
            updated_at: self.updated_at@,
        }
    }
}

impl Project {
    /// Creates a project with a fresh identifier whose task numbering starts
    /// at 1. Name and goal must not be empty.
    pub fn new(name: &str, prefix: &ProjectPrefix, goal: &str, now: Timestamp) -> (r: Result<
        Project,
        DomainError,
    >)
        ensures
            name@.len() == 0 ==> (r matches Err(e) && e.message() == "Project name must not be empty"@),
            name@.len() != 0 && goal@.len() == 0 ==> (r matches Err(e) && e.message()
                == "Project goal must not be empty"@),
            name@.len() != 0 && goal@.len() != 0 ==> (r matches Ok(p) && is_simple_id(p@.id)
                && p@.name == name@ && p@.prefix == prefix@ && p@.goal == goal@ && p@.next_seq == 1
                && p@.created_at == now@ && p@.updated_at == now@),
    {
        if name.is_empty() {
            return Err(DomainError::Validation("Project name must not be empty".to_owned()));
        }
        if goal.is_empty() {
            return Err(DomainError::Validation("Project goal must not be empty".to_owned()));
        }
        Ok(
            Project {
                id: new_simple_id(),
                name: name.to_owned(),
                prefix: ProjectPrefix(prefix.0.clone()),
                goal: goal.to_owned(),
                next_seq: 1,
                created_at: now,
                updated_at: now,
            },
        )
    }

    /// Restores a project read back from storage.
    pub fn from_row(
        id: String,
        name: String,
        prefix: ProjectPrefix,
        goal: String,
        next_seq: i64,
        created_at: Timestamp,
        updated_at: Timestamp,
    ) -> (r: Project)
        ensures
            r@ == (ProjectView {
                id: id@,
                name: name@,
                prefix: prefix@,
                goal: goal@,
                next_seq,
                created_at: created_at@,
                updated_at: updated_at@,
            }),
    {
        Project { id, name, prefix, goal, next_seq, created_at, updated_at }
    }

    pub fn id(&self) -> (r: &str)
        ensures
            r@ == self@.id,
    {
        self.id.as_str()
    }

    pub fn name(&self) -> (r: &str)
        ensures
            r@ == self@.name,
    {
        self.name.as_str()
    }

    pub fn prefix(&self) -> (r: &ProjectPrefix)
        ensures
            r@ == self@.prefix,
    {
        &self.prefix
    }

    pub fn goal(&self) -> (r: &str)
        ensures
            r@ == self@.goal,
    {
        self.goal.as_str()
    }

    pub fn next_seq(&self) -> (r: i64)
        ensures
            r == self@.next_seq,
    {
        self.next_seq
    }

    pub fn created_at(&self) -> (r: Timestamp)
        ensures
            r@ == self@.created_at,
    {
        self.created_at
    }

    pub fn updated_at(&self) -> (r: Timestamp)
        ensures
            r@ == self@.updated_at,
    {
        self.updated_at
    }
}

} // verus!
