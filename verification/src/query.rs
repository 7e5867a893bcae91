//! The SQL statements whose text depends on the request: task listing with
//! filters, partial updates of tasks and cycles, the overlap search and the
//! detailed cycle listing. Each is built as its text and the values bound
//! to its `?` placeholders, in order.

use vstd::prelude::*;

use crate::domain::cycle::{derive_status, status_on, CycleStatus};
use crate::domain::tool_stats::{lex_lt, string_views};
use crate::text::{chars_of, push_str, string_of};
use crate::time::ymd_day_number;

verus! {

/// A statement: its text and the values for its placeholders.
pub struct Statement {
    pub sql: String,
    pub params: Vec<String>,
}

/// The values of a statement's placeholders.
pub open spec fn param_texts(s: Statement) -> Seq<Seq<char>> {
    string_views(s.params@)
}

/// The text of a present option as a one-element sequence.
pub open spec fn opt_param(o: Option<&str>) -> Seq<Seq<char>> {
    match o {
        Some(v) => seq![v@],
        None => seq![],
    }
}

/// `fragment` when the option is present, nothing otherwise.
pub open spec fn when_some(o: Option<&str>, fragment: Seq<char>) -> Seq<char> {
    match o {
        Some(_) => fragment,
        None => seq![],
    }
}

fn push_when(v: &mut Vec<char>, o: Option<&str>, fragment: &str)
    ensures
        final(v)@ == old(v)@ + when_some(o, fragment@),
{
    match o {
        Some(_) => push_str(v, fragment),
        None => {
            assert(old(v)@ + seq![] =~= old(v)@);
        },
    }
}

fn push_param(ps: &mut Vec<String>, o: Option<&str>)
    ensures
        string_views(final(ps)@) == string_views(old(ps)@) + opt_param(o),
{
    let ghost before = ps@;
    match o {
        Some(v) => {
            ps.push(v.to_owned());
            assert(string_views(ps@) =~= string_views(before) + opt_param(o));
        },
        None => {
            assert(string_views(ps@) =~= string_views(before) + opt_param(o));
        },
    }
}

fn push_text(ps: &mut Vec<String>, v: &str)
    ensures
        string_views(final(ps)@) == string_views(old(ps)@).push(v@),
{
    let ghost before = ps@;
    ps.push(v.to_owned());
    assert(string_views(ps@) =~= string_views(before).push(v@));
}

/// Filters of the task listing; each present one must match exactly.
pub struct TaskFilter<'a> {
    pub project_name: Option<&'a str>,
    pub status_name: Option<&'a str>,
    pub label: Option<&'a str>,
}

/// The text of the task listing for a filter.
pub open spec fn task_list_sql(f: TaskFilter) -> Seq<char> {
    "SELECT t.id, t.title, t.description, t.label, s.name AS status_name, p.name AS project_name, t.created_at, t.updated_at FROM tasks t JOIN statuses s ON t.status_id = s.id JOIN projects p ON t.project_id = p.id WHERE 1=1"@
        + when_some(f.project_name, " AND p.name = ?"@) + when_some(
        f.status_name,
        " AND s.name = ?"@,
    ) + when_some(f.label, " AND t.label = ?"@) + " ORDER BY t.created_at DESC"@
}

/// Lists tasks with their status and project names, newest first, keeping
/// those that match every present filter.
pub fn task_list_query(filter: &TaskFilter) -> (r: Statement)
    ensures
        r.sql@ == task_list_sql(*filter),
        param_texts(r) == opt_param(filter.project_name) + opt_param(filter.status_name)
            + opt_param(filter.label),
{
    let mut sql = chars_of(
        "SELECT t.id, t.title, t.description, t.label, s.name AS status_name, p.name AS project_name, t.created_at, t.updated_at FROM tasks t JOIN statuses s ON t.status_id = s.id JOIN projects p ON t.project_id = p.id WHERE 1=1",
    );
    let mut params: Vec<String> = Vec::new();
    assert(string_views(params@) =~= Seq::<Seq<char>>::empty());
    push_when(&mut sql, filter.project_name, " AND p.name = ?");
    push_param(&mut params, filter.project_name);
    push_when(&mut sql, filter.status_name, " AND s.name = ?");
    push_param(&mut params, filter.status_name);
    push_when(&mut sql, filter.label, " AND t.label = ?");
    push_param(&mut params, filter.label);
    push_str(&mut sql, " ORDER BY t.created_at DESC");
    assert(string_views(params@) =~= opt_param(filter.project_name) + opt_param(filter.status_name)
        + opt_param(filter.label));
    Statement { sql: string_of(&sql), params }
}

/// The fields of a task to change; absent ones stay as they are.
pub struct TaskUpdate<'a> {
    pub title: Option<&'a str>,
    pub description: Option<&'a str>,
    pub label: Option<&'a str>,
}

/// The text of a task update: the update time always, then each present
/// field.
pub open spec fn task_update_sql(u: TaskUpdate) -> Seq<char> {
    "UPDATE tasks SET updated_at = ?"@ + when_some(u.title, ", title = ?"@) + when_some(
        u.description,
        ", description = ?"@,
    ) + when_some(u.label, ", label = ?"@) + " WHERE id = ?"@
}

/// Updates the present fields of task `id` and stamps it with `updated_at`.
pub fn task_update_statement(id: &str, update: &TaskUpdate, updated_at: &str) -> (r: Statement)
    ensures
        r.sql@ == task_update_sql(*update),
        param_texts(r) == seq![updated_at@] + opt_param(update.title) + opt_param(
            update.description,
        ) + opt_param(update.label) + seq![id@],
{
    let mut sql = chars_of("UPDATE tasks SET updated_at = ?");
    let mut params: Vec<String> = Vec::new();
    push_text(&mut params, updated_at);
    push_when(&mut sql, update.title, ", title = ?");
    push_param(&mut params, update.title);
    push_when(&mut sql, update.description, ", description = ?");
    push_param(&mut params, update.description);
    push_when(&mut sql, update.label, ", label = ?");
    push_param(&mut params, update.label);
    push_str(&mut sql, " WHERE id = ?");
    push_text(&mut params, id);
    assert(string_views(params@) =~= seq![updated_at@] + opt_param(update.title) + opt_param(
        update.description,
    ) + opt_param(update.label) + seq![id@]);
    Statement { sql: string_of(&sql), params }
}

/// The text of a cycle update: each present field, then the update time.
pub open spec fn cycle_update_sql(
    name: Option<&str>,
    start_date: Option<&str>,
    end_date: Option<&str>,
) -> Seq<char> {
    "UPDATE cycles SET "@ + when_some(name, "name = ?, "@) + when_some(
        start_date,
        "start_date = ?, "@,
    ) + when_some(end_date, "end_date = ?, "@) + "updated_at = ? WHERE id = ?"@
}

/// Updates the present fields of cycle `id` and stamps it with `updated_at`.
pub fn cycle_update_statement(
    id: &str,
    name: Option<&str>,
    start_date: Option<&str>,
    end_date: Option<&str>,
    updated_at: &str,
) -> (r: Statement)
    ensures
        r.sql@ == cycle_update_sql(name, start_date, end_date),
        param_texts(r) == opt_param(name) + opt_param(start_date) + opt_param(end_date) + seq![
            updated_at@,
            id@,
        ],
{
    let mut sql = chars_of("UPDATE cycles SET ");
    let mut params: Vec<String> = Vec::new();
    assert(string_views(params@) =~= Seq::<Seq<char>>::empty());
    push_when(&mut sql, name, "name = ?, ");
    push_param(&mut params, name);
    push_when(&mut sql, start_date, "start_date = ?, ");
    push_param(&mut params, start_date);
    push_when(&mut sql, end_date, "end_date = ?, ");
    push_param(&mut params, end_date);
    push_str(&mut sql, "updated_at = ? WHERE id = ?");
    push_text(&mut params, updated_at);
    push_text(&mut params, id);
    assert(string_views(params@) =~= opt_param(name) + opt_param(start_date) + opt_param(end_date)
        + seq![updated_at@, id@]);
    Statement { sql: string_of(&sql), params }
}

/// A column of the cycles table that a search condition tests.
#[derive(Clone, Copy)]
pub enum CycleColumn {
    Id,
    WorkspaceId,
    StartDate,
    EndDate,
}

/// How a column is compared with a bound value.
#[derive(Clone, Copy)]
pub enum Comparison {
    Equal,
    NotEqual,
    AtMost,
    AtLeast,
}

/// A condition `column comparison ?placeholder` of a search.
#[derive(Clone, Copy)]
pub struct Condition {
    pub column: CycleColumn,
    pub comparison: Comparison,
    pub placeholder: u8,
}

/// The SQL name of a column.
pub open spec fn column_sql(c: CycleColumn) -> Seq<char> {
    match c {
        CycleColumn::Id => "id"@,
        CycleColumn::WorkspaceId => "workspace_id"@,
        CycleColumn::StartDate => "start_date"@,
        CycleColumn::EndDate => "end_date"@,
    }
}

/// The SQL operator of a comparison.
pub open spec fn comparison_sql(o: Comparison) -> Seq<char> {
    match o {
        Comparison::Equal => "="@,
        Comparison::NotEqual => "!="@,
        Comparison::AtMost => "<="@,
        Comparison::AtLeast => ">="@,
    }
}

/// The SQL text of a numbered placeholder.
pub open spec fn placeholder_sql(n: u8) -> Seq<char> {
    match n {
        1 => "?1"@,
        2 => "?2"@,
        3 => "?3"@,
        _ => "?4"@,
    }
}

/// The SQL text of one condition.
pub open spec fn condition_sql(c: Condition) -> Seq<char> {
    column_sql(c.column) + " "@ + comparison_sql(c.comparison) + " "@ + placeholder_sql(c.placeholder)
}

/// The SQL text of conditions joined with `AND`.
pub open spec fn conditions_sql(cs: Seq<Condition>) -> Seq<char>
    decreases cs.len(),
{
    if cs.len() == 0 {
        seq![]
    } else if cs.len() == 1 {
        condition_sql(cs[0])
    } else {
        condition_sql(cs[0]) + " AND "@ + conditions_sql(cs.drop_first())
    }
}

/// The conditions of the overlap search: the workspace is `?1`, the cycle
/// starts on or before `?3` and ends on or after `?2`, and, when a cycle is
/// left out, its identifier is not `?4`.
pub open spec fn overlap_conditions(excluding: bool) -> Seq<Condition> {
    seq![
        Condition { column: CycleColumn::WorkspaceId, comparison: Comparison::Equal, placeholder: 1 },
        Condition { column: CycleColumn::StartDate, comparison: Comparison::AtMost, placeholder: 3 },
        Condition { column: CycleColumn::EndDate, comparison: Comparison::AtLeast, placeholder: 2 },
    ] + if excluding {
        seq![Condition { column: CycleColumn::Id, comparison: Comparison::NotEqual, placeholder: 4 }]
    } else {
        seq![]
    }
}

/// The text of the search for cycles of a workspace whose dates overlap a
/// range, leaving out one cycle when asked.
pub open spec fn overlap_sql(exclude_id: Option<&str>) -> Seq<char> {
    "SELECT id, workspace_id, name, start_date, end_date, created_at, updated_at FROM cycles WHERE "@
        + conditions_sql(overlap_conditions(exclude_id is Some))
}

/// A stored cycle as a search sees it: identifier, workspace, start date
/// and end date.
pub open spec fn column_value(row: (Seq<char>, Seq<char>, Seq<char>, Seq<char>), c: CycleColumn) -> Seq<char> {
    match c {
        CycleColumn::Id => row.0,
        CycleColumn::WorkspaceId => row.1,
        CycleColumn::StartDate => row.2,
        CycleColumn::EndDate => row.3,
    }
}

/// Whether a comparison holds between a column's text and a bound text,
/// texts being ordered character by character as SQLite orders them.
pub open spec fn comparison_holds(o: Comparison, value: Seq<char>, bound: Seq<char>) -> bool {
    match o {
        Comparison::Equal => value == bound,
        Comparison::NotEqual => value != bound,
        Comparison::AtMost => !lex_lt(bound, value),
        Comparison::AtLeast => !lex_lt(value, bound),
    }
}

/// Whether a stored cycle meets every condition, with `params` bound to
/// the placeholders `?1`, `?2`, ... in order.
pub open spec fn row_selected(
    row: (Seq<char>, Seq<char>, Seq<char>, Seq<char>),
    cs: Seq<Condition>,
    params: Seq<Seq<char>>,
) -> bool {
    forall|i: int|
        0 <= i < cs.len() ==> 1 <= (#[trigger] cs[i]).placeholder <= params.len() && comparison_holds(
            cs[i].comparison,
            column_value(row, cs[i].column),
            params[cs[i].placeholder - 1],
        )
}

/// The overlap search selects exactly the cycles of the given workspace
/// whose days from start to end share a day with the requested range
/// (start on or before its end, end on or after its start), other than
/// the cycle left out.
pub proof fn lemma_overlap_search_selects(
    workspace_id: Seq<char>,
    start_date: Seq<char>,
    end_date: Seq<char>,
    exclude_id: Option<Seq<char>>,
    row: (Seq<char>, Seq<char>, Seq<char>, Seq<char>),
)
    ensures
        row_selected(
            row,
            overlap_conditions(exclude_id is Some),
            seq![workspace_id, start_date, end_date] + match exclude_id {
                Some(x) => seq![x],
                None => seq![],
            },
        ) <==> (row.1 == workspace_id && !lex_lt(end_date, row.2) && !lex_lt(row.3, start_date) && (
        exclude_id matches Some(x) ==> row.0 != x)),
{
    let cs = overlap_conditions(exclude_id is Some);
    let ps = seq![workspace_id, start_date, end_date] + match exclude_id {
        Some(x) => seq![x],
        None => seq![],
    };
    assert(ps[0] == workspace_id && ps[1] == start_date && ps[2] == end_date);
    if row_selected(row, cs, ps) {
        assert(cs[0].placeholder == 1);
        assert(cs[1].placeholder == 3);
        assert(cs[2].placeholder == 2);
        if exclude_id is Some {
            assert(cs[3].placeholder == 4);
        }
    }
}

fn push_condition(v: &mut Vec<char>, c: Condition)
    requires
        1 <= c.placeholder <= 4,
    ensures
        final(v)@ == old(v)@ + condition_sql(c),
{
    let ghost before = v@;
    match c.column {
        CycleColumn::Id => push_str(v, "id"),
        CycleColumn::WorkspaceId => push_str(v, "workspace_id"),
        CycleColumn::StartDate => push_str(v, "start_date"),
        CycleColumn::EndDate => push_str(v, "end_date"),
    }
    push_str(v, " ");
    match c.comparison {
        Comparison::Equal => push_str(v, "="),
        Comparison::NotEqual => push_str(v, "!="),
        Comparison::AtMost => push_str(v, "<="),
        Comparison::AtLeast => push_str(v, ">="),
    }
    push_str(v, " ");
    if c.placeholder == 1 {
        push_str(v, "?1");
    } else if c.placeholder == 2 {
        push_str(v, "?2");
    } else if c.placeholder == 3 {
        push_str(v, "?3");
    } else {
        push_str(v, "?4");
    }
    assert(v@ =~= before + condition_sql(c));
}

/// Finds the cycles of `workspace_id` that share a day with the range
/// from `start_date` to `end_date`, other than `exclude_id`.
pub fn overlapping_cycles_query(
    workspace_id: &str,
    start_date: &str,
    end_date: &str,
    exclude_id: Option<&str>,
) -> (r: Statement)
    ensures
        r.sql@ == overlap_sql(exclude_id),
        param_texts(r) == seq![workspace_id@, start_date@, end_date@] + opt_param(exclude_id),
{
    let c1 = Condition { column: CycleColumn::WorkspaceId, comparison: Comparison::Equal, placeholder: 1 };
    let c2 = Condition { column: CycleColumn::StartDate, comparison: Comparison::AtMost, placeholder: 3 };
    let c3 = Condition { column: CycleColumn::EndDate, comparison: Comparison::AtLeast, placeholder: 2 };
    let c4 = Condition { column: CycleColumn::Id, comparison: Comparison::NotEqual, placeholder: 4 };
    let ghost cs = overlap_conditions(exclude_id is Some);
    let mut sql = chars_of(
        "SELECT id, workspace_id, name, start_date, end_date, created_at, updated_at FROM cycles WHERE ",
    );
    let ghost prefix = sql@;
    push_condition(&mut sql, c1);
    push_str(&mut sql, " AND ");
    push_condition(&mut sql, c2);
    push_str(&mut sql, " AND ");
    push_condition(&mut sql, c3);
    match exclude_id {
        Some(_) => {
            push_str(&mut sql, " AND ");
            push_condition(&mut sql, c4);
        },
        None => {},
    }
    proof {
        let tail = cs.drop_first().drop_first();
        if exclude_id is Some {
            assert(tail.drop_first().drop_first() =~= Seq::<Condition>::empty());
            assert(tail.drop_first().len() == 1);
            assert(conditions_sql(tail) == condition_sql(c3) + " AND "@ + conditions_sql(tail.drop_first()));
        } else {
            assert(tail.len() == 1);
            assert(tail[0] == c3);
        }
        assert(cs[0] == c1 && cs[1] == c2);
        assert(cs.drop_first()[0] == c2);
        assert(tail.len() >= 1 && tail[0] == c3);
        assert(conditions_sql(cs.drop_first()) == condition_sql(c2) + " AND "@ + conditions_sql(tail));
        assert(conditions_sql(cs) == condition_sql(c1) + " AND "@ + conditions_sql(cs.drop_first()));
        if exclude_id is Some {
            assert(tail.drop_first()[0] == c4);
            assert(conditions_sql(tail.drop_first()) == condition_sql(c4));
            assert(sql@ =~= prefix + conditions_sql(cs));
        } else {
            assert(conditions_sql(tail) == condition_sql(c3));
            assert(sql@ =~= prefix + conditions_sql(cs));
        }
    }
    let mut params: Vec<String> = Vec::new();
    push_text(&mut params, workspace_id);
    push_text(&mut params, start_date);
    push_text(&mut params, end_date);
    push_param(&mut params, exclude_id);
    assert(string_views(params@) =~= seq![workspace_id@, start_date@, end_date@] + opt_param(
        exclude_id,
    ));
    Statement { sql: string_of(&sql), params }
}

/// The text of the cycle listing with workspace names, for all workspaces
/// or one.
pub open spec fn cycle_list_sql(workspace_name: Option<&str>) -> Seq<char> {
    "SELECT c.id, w.name AS workspace_name, c.name, c.start_date, c.end_date, c.created_at, c.updated_at FROM cycles c JOIN workspaces w ON c.workspace_id = w.id"@
        + when_some(workspace_name, " WHERE w.name = ?"@) + " ORDER BY c.created_at DESC"@
}

/// Lists cycles with their workspace names, newest first, for all
/// workspaces or only the named one.
pub fn cycle_list_query(workspace_name: Option<&str>) -> (r: Statement)
    ensures
        r.sql@ == cycle_list_sql(workspace_name),
        param_texts(r) == opt_param(workspace_name),
{
    let mut sql = chars_of(
        "SELECT c.id, w.name AS workspace_name, c.name, c.start_date, c.end_date, c.created_at, c.updated_at FROM cycles c JOIN workspaces w ON c.workspace_id = w.id",
    );
    let mut params: Vec<String> = Vec::new();
    assert(string_views(params@) =~= Seq::<Seq<char>>::empty());
    push_when(&mut sql, workspace_name, " WHERE w.name = ?");
    push_param(&mut params, workspace_name);
    push_str(&mut sql, " ORDER BY c.created_at DESC");
    Statement { sql: string_of(&sql), params }
}

/// A cycle as the listing shows it: with its workspace's name and the
/// status derived from its dates.
pub struct CycleListRow {
    pub id: String,
    pub workspace_name: String,
    pub name: String,
    pub status: String,
    pub start_date: String,
    pub end_date: String,
    pub created_at: String,
    pub updated_at: String,
}

/// Builds a listing row from the stored columns, deriving the status for
/// day `today`.
pub fn cycle_list_row(
    id: String,
    workspace_name: String,
    name: String,
    start_date: String,
    end_date: String,
    created_at: String,
    updated_at: String,
    today: i32,
) -> (r: CycleListRow)
    ensures
        r.id@ == id@,
        r.workspace_name@ == workspace_name@,
        r.name@ == name@,
        r.status@ == status_on(ymd_day_number(start_date@), ymd_day_number(end_date@), today).name(),
        r.start_date@ == start_date@,
        r.end_date@ == end_date@,
        r.created_at@ == created_at@,
        r.updated_at@ == updated_at@,
{
    let status: CycleStatus = derive_status(start_date.as_str(), end_date.as_str(), today);
    CycleListRow {
        id,
        workspace_name,
        name,
        status: status.as_str().to_owned(),
        start_date,
        end_date,
        created_at,
        updated_at,
    }
}

/// A task as the listing shows it: with the names of its status and
/// project.
pub struct TaskListRow {
    pub id: String,
    pub title: String,
    pub description: String,
    pub label: String,
    pub status_name: String,
    pub project_name: String,
    pub created_at: String,
    pub updated_at: String,
}

} // verus!
