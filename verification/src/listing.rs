//! The text the commands print: list tables, one line per record under a
//! header, and the confirmations of new records.

use vstd::prelude::*;

use crate::domain::cycle::Cycle;
use crate::domain::project::Project;
use crate::domain::status::Status;
use crate::domain::task::Task;
use crate::query::{CycleListRow, TaskListRow};
use crate::text::{chars_of, dec_i64, dec_int, pad_right, push_all, push_padded, push_str, string_of};

verus! {

fn push_cell(v: &mut Vec<char>, s: &str, width: usize)
    ensures
        final(v)@ == old(v)@ + pad_right(s@, width as nat) + seq![' '],
{
    push_padded(v, &chars_of(s), width);
    v.push(' ');
}

/// The header of the cycle table.
pub open spec fn cycle_header_text() -> Seq<char> {
    pad_right("ID"@, 12) + seq![' '] + pad_right("NAME"@, 16) + seq![' '] + pad_right("STATUS"@, 12)
        + seq![' '] + pad_right("START"@, 14) + seq![' '] + pad_right("END"@, 14) + seq![' ']
        + "WORKSPACE"@
}

/// The identifier as the cycle table shows it: its first ten characters.
pub open spec fn short_id(id: Seq<char>) -> Seq<char> {
    if id.len() > 10 {
        id.take(10)
    } else {
        id
    }
}

/// One row of the cycle table.
pub open spec fn cycle_line_text(r: CycleListRow) -> Seq<char> {
    pad_right(short_id(r.id@), 12) + seq![' '] + pad_right(r.name@, 16) + seq![' '] + pad_right(
        r.status@,
        12,
    ) + seq![' '] + pad_right(r.start_date@, 14) + seq![' '] + pad_right(r.end_date@, 14) + seq![
        ' ',
    ] + r.workspace_name@
}

/// Every character of `s` is ASCII, so it takes one byte.
pub open spec fn is_ascii_text(s: Seq<char>) -> bool {
    forall|i: int| 0 <= i < s.len() ==> (#[trigger] s[i] as u32) < 128
}

/// The header line of the cycle table.
pub fn cycle_header() -> (r: String)
    ensures
        r@ == cycle_header_text(),
{
    let mut v: Vec<char> = Vec::new();
    push_cell(&mut v, "ID", 12);
    push_cell(&mut v, "NAME", 16);
    push_cell(&mut v, "STATUS", 12);
    push_cell(&mut v, "START", 14);
    push_cell(&mut v, "END", 14);
    push_str(&mut v, "WORKSPACE");
    string_of(&v)
}

/// One line of the cycle table. The identifier is cut to ten characters,
/// which needs an ASCII identifier (cycle identifiers are hexadecimal).
pub fn cycle_line(r: &CycleListRow) -> (out: String)
    requires
        is_ascii_text(r.id@),
    ensures
        out@ == cycle_line_text(*r),
{
    let id = chars_of(r.id.as_str());
    let mut short: Vec<char> = Vec::new();
    let n: usize = if id.len() > 10 { 10 } else { id.len() };
    let mut i: usize = 0;
    while i < n
        invariant
            i <= n <= id@.len(),
            short@ == id@.take(i as int),
        decreases n - i,
    {
        short.push(id[i]);
        assert(id@.take(i + 1) =~= id@.take(i as int).push(id@[i as int]));
        i += 1;
    }
    assert(id@.len() <= 10 ==> id@.take(n as int) =~= id@);
    let mut v: Vec<char> = Vec::new();
    push_padded(&mut v, &short, 12);
    v.push(' ');
    push_cell(&mut v, r.name.as_str(), 16);
    push_cell(&mut v, r.status.as_str(), 12);
    push_cell(&mut v, r.start_date.as_str(), 14);
    push_cell(&mut v, r.end_date.as_str(), 14);
    push_str(&mut v, r.workspace_name.as_str());
    string_of(&v)
}

/// The header of the project table.
pub open spec fn project_header_text() -> Seq<char> {
    pad_right("PREFIX"@, 8) + seq![' '] + pad_right("NAME"@, 20) + seq![' '] + "GOAL"@
}

/// The header line of the project table.
pub fn project_header() -> (r: String)
    ensures
        r@ == project_header_text(),
{
    let mut v: Vec<char> = Vec::new();
    push_cell(&mut v, "PREFIX", 8);
    push_cell(&mut v, "NAME", 20);
    push_str(&mut v, "GOAL");
    string_of(&v)
}

/// One line of the project table: prefix, name and goal.
pub fn project_line(p: &Project) -> (out: String)
    ensures
        out@ == pad_right(p@.prefix, 8) + seq![' '] + pad_right(p@.name, 20) + seq![' '] + p@.goal,
{
    let mut v: Vec<char> = Vec::new();
    push_cell(&mut v, p.prefix().as_str(), 8);
    push_cell(&mut v, p.name(), 20);
    push_str(&mut v, p.goal());
    string_of(&v)
}

/// The header of the status table.
pub open spec fn status_header_text() -> Seq<char> {
    pad_right("ID"@, 36) + seq![' '] + pad_right("NAME"@, 16) + seq![' '] + pad_right(
        "CATEGORY"@,
        12,
    ) + seq![' '] + "POS"@
}

/// The header line of the status table.
pub fn status_header() -> (r: String)
    ensures
        r@ == status_header_text(),
{
    let mut v: Vec<char> = Vec::new();
    push_cell(&mut v, "ID", 36);
    push_cell(&mut v, "NAME", 16);
    push_cell(&mut v, "CATEGORY", 12);
    push_str(&mut v, "POS");
    string_of(&v)
}

/// One line of the status table: identifier, name, category and position.
pub fn status_line(s: &Status) -> (out: String)
    ensures
        out@ == pad_right(s@.id, 36) + seq![' '] + pad_right(s@.name, 16) + seq![' '] + pad_right(
            s@.category.name(),
            12,
        ) + seq![' '] + dec_int(s@.position as int),
{
    let mut v: Vec<char> = Vec::new();
    push_cell(&mut v, s.id(), 36);
    push_cell(&mut v, s.name(), 16);
    push_cell(&mut v, s.category().as_str(), 12);
    push_all(&mut v, &dec_i64(s.position()));
    string_of(&v)
}

/// The header of the task table.
pub open spec fn task_header_text() -> Seq<char> {
    pad_right("ID"@, 10) + seq![' '] + pad_right("TITLE"@, 24) + seq![' '] + pad_right(
        "STATUS"@,
        24,
    ) + seq![' '] + "LABEL"@
}

/// The header line of the task table.
pub fn task_header() -> (r: String)
    ensures
        r@ == task_header_text(),
{
    let mut v: Vec<char> = Vec::new();
    push_cell(&mut v, "ID", 10);
    push_cell(&mut v, "TITLE", 24);
    push_cell(&mut v, "STATUS", 24);
    push_str(&mut v, "LABEL");
    string_of(&v)
}

/// The status cell of a task: its status, marked when the task waits on
/// another one.
pub open spec fn status_cell(status_name: Seq<char>, blocked: bool) -> Seq<char> {
    if blocked {
        status_name + " [blocked]"@
    } else {
        status_name
    }
}

/// One line of the task table.
pub fn task_line(t: &TaskListRow, blocked: bool) -> (out: String)
    ensures
        out@ == pad_right(t.id@, 10) + seq![' '] + pad_right(t.title@, 24) + seq![' '] + pad_right(
            status_cell(t.status_name@, blocked),
            24,
        ) + seq![' '] + t.label@,
{
    let mut status = chars_of(t.status_name.as_str());
    if blocked {
        push_str(&mut status, " [blocked]");
    }
    let mut v: Vec<char> = Vec::new();
    push_cell(&mut v, t.id.as_str(), 10);
    push_cell(&mut v, t.title.as_str(), 24);
    push_padded(&mut v, &status, 24);
    v.push(' ');
    push_str(&mut v, t.label.as_str());
    string_of(&v)
}

/// `Created cycle <id> "<name>"`.
pub fn created_cycle_message(c: &Cycle) -> (r: String)
    ensures
        r@ == "Created cycle "@ + c@.id + " \""@ + c@.name + "\""@,
{
    let mut v = chars_of("Created cycle ");
    push_str(&mut v, c.id());
    push_str(&mut v, " \"");
    push_str(&mut v, c.name());
    push_str(&mut v, "\"");
    string_of(&v)
}

/// `Created project "<name>" (<prefix>)`.
pub fn created_project_message(p: &Project) -> (r: String)
    ensures
        r@ == "Created project \""@ + p@.name + "\" ("@ + p@.prefix + ")"@,
{
    let mut v = chars_of("Created project \"");
    push_str(&mut v, p.name());
    push_str(&mut v, "\" (");
    push_str(&mut v, p.prefix().as_str());
    push_str(&mut v, ")");
    string_of(&v)
}

/// `Created status "<name>" (<category>, position <n>)`.
pub fn created_status_message(s: &Status) -> (r: String)
    ensures
        r@ == "Created status \""@ + s@.name + "\" ("@ + s@.category.name() + ", position "@
            + dec_int(s@.position as int) + ")"@,
{
    let mut v = chars_of("Created status \"");
    push_str(&mut v, s.name());
    push_str(&mut v, "\" (");
    push_str(&mut v, s.category().as_str());
    push_str(&mut v, ", position ");
    push_all(&mut v, &dec_i64(s.position()));
    push_str(&mut v, ")");
    string_of(&v)
}

/// `Created task <id> "<title>"`.
pub fn created_task_message(t: &Task) -> (r: String)
    ensures
        r@ == "Created task "@ + t@.id + " \""@ + t@.title + "\""@,
{
    let mut v = chars_of("Created task ");
    push_str(&mut v, t.id());
    push_str(&mut v, " \"");
    push_str(&mut v, t.title());
    push_str(&mut v, "\"");
    string_of(&v)
}

} // verus!
