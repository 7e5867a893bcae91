//! The cycle report: which tasks of a cycle count as planned or unplanned,
//! done or not, and how the report is laid out.

use vstd::prelude::*;
use crate::domain::cycle::Assigned;
use crate::domain::report::{format_ms, format_number, ms_text, truncate, truncated, group_thousands};
use crate::domain::status::StatusCategory;
use crate::domain::task_size::TaskSize;
use crate::domain::token_usage::TokenUsage;
use crate::domain::value::Ms;
use crate::text::{
    chars_of, dec, dec_u64, join_lines, join_with_newlines, pad_right, push_all, push_padded,
    push_str, string_of, views,
};

verus! {

broadcast use vstd::string::group_string_axioms;

/// The section of the cycle report a task lands in.
#[derive(Debug, Clone, Copy, PartialEq, Eq, Structural)]
pub enum CycleReportCategory {
    PlannedDone,
    PlannedIncomplete,
    UnplannedDone,
}

/// Where a task with the given assignment and status category is reported:
/// planned tasks are done or incomplete, automatically included tasks only
/// show up once they are completed.
pub open spec fn category_of(assigned: Assigned, status_category: StatusCategory) -> Option<
    CycleReportCategory,
> {
    match assigned {
        Assigned::Planned => if status_category == StatusCategory::Completed {
            Some(CycleReportCategory::PlannedDone)
        } else {
            Some(CycleReportCategory::PlannedIncomplete)
        },
        Assigned::Auto => if status_category == StatusCategory::Completed {
            Some(CycleReportCategory::UnplannedDone)
        } else {
            None
        },
    }
}

/// Decides the report section of a task; `None` leaves it out.
pub fn classify(assigned: Assigned, status_category: StatusCategory) -> (r: Option<
    CycleReportCategory,
>)
    ensures
        r == category_of(assigned, status_category),
{
    match (assigned, status_category) {
        (Assigned::Planned, StatusCategory::Completed) => Some(CycleReportCategory::PlannedDone),
        (Assigned::Planned, _) => Some(CycleReportCategory::PlannedIncomplete),
        (Assigned::Auto, StatusCategory::Completed) => Some(CycleReportCategory::UnplannedDone),
        (Assigned::Auto, _) => None,
    }
}

/// A planned task that is not done yet, as the report lists it.
#[derive(Debug)]
pub struct IncompleteTask {
    pub id: String,
    pub title: String,
    pub status_name: String,
    pub issue_age: Option<Ms>,
}

/// The measured facts about a done task that the report tables show.
#[derive(Debug, Clone)]
pub struct TaskReport {
    pub id: String,
    pub title: String,
    pub cycle_time: Option<Ms>,
    pub lead_time: Option<Ms>,
    pub tokens: Option<TokenUsage>,
    pub task_size: Option<TaskSize>,
    pub has_rework: bool,
}

/// The dash shown for a value that is missing.
pub open spec fn dash() -> Seq<char> {
    seq!['\u{2014}']
}

/// A duration as a table cell.
pub open spec fn ms_cell(m: Option<Ms>) -> Seq<char> {
    match m {
        Some(ms) => ms_text(ms@ as int),
        None => dash(),
    }
}

/// Token usage as a table cell: the grouped total.
pub open spec fn tokens_cell(t: Option<TokenUsage>) -> Seq<char> {
    match t {
        Some(u) => group_thousands(dec((u.input_tokens + u.output_tokens) as nat)),
        None => dash(),
    }
}

/// Task size as a table cell: the added lines.
pub open spec fn size_cell(s: Option<TaskSize>) -> Seq<char> {
    match s {
        Some(z) => seq!['+'] + dec(z.additions as nat),
        None => dash(),
    }
}

/// Whether a report's token total can be computed without overflow.
pub open spec fn tokens_fit(t: Option<TokenUsage>) -> bool {
    t matches Some(u) ==> u.input_tokens + u.output_tokens <= u64::MAX
}

/// The header of the done-task table.
pub open spec fn done_header_text() -> Seq<char> {
    pad_right("ID"@, 8) + pad_right("TITLE"@, 20) + pad_right("CYCLE"@, 9) + pad_right("LEAD"@, 9)
        + pad_right("TOKENS"@, 9) + pad_right("SIZE"@, 8) + "REWORK"@
}

/// One row of the done-task table.
pub open spec fn done_row_text(r: TaskReport) -> Seq<char> {
    pad_right(r.id@, 8) + pad_right(truncated(r.title@, 18), 20) + pad_right(ms_cell(r.cycle_time), 9)
        + pad_right(ms_cell(r.lead_time), 9) + pad_right(tokens_cell(r.tokens), 9) + pad_right(
        size_cell(r.task_size),
        8,
    ) + (if r.has_rework { "yes"@ } else { "no"@ })
}

/// The header of the incomplete-task table.
pub open spec fn incomplete_header_text() -> Seq<char> {
    pad_right("ID"@, 8) + pad_right("TITLE"@, 20) + pad_right("STATUS"@, 14) + "AGE"@
}

/// One row of the incomplete-task table.
pub open spec fn incomplete_row_text(t: IncompleteTask) -> Seq<char> {
    pad_right(t.id@, 8) + pad_right(truncated(t.title@, 18), 20) + pad_right(t.status_name@, 14)
        + ms_cell(t.issue_age)
}

fn padded_literal(v: &mut Vec<char>, s: &str, width: usize)
    ensures
        final(v)@ == old(v)@ + pad_right(s@, width as nat),
{
    let w = chars_of(s);
    push_padded(v, &w, width);
}

pub(crate) fn padded_string(v: &mut Vec<char>, s: &String, width: usize)
    ensures
        final(v)@ == old(v)@ + pad_right(s@, width as nat),
{
    let w = chars_of(s.as_str());
    push_padded(v, &w, width);
}

pub(crate) fn ms_cell_text(m: &Option<Ms>) -> (r: String)
    ensures
        r@ == ms_cell(*m),
{
    proof {
        reveal_strlit("\u{2014}");
    }
    match m {
        Some(ms) => format_ms(ms),
        None => "\u{2014}".to_owned(),
    }
}

/// The header line of the done-task table.
pub fn format_done_header() -> (r: String)
    ensures
        r@ == done_header_text(),
{
    let mut v: Vec<char> = Vec::new();
    padded_literal(&mut v, "ID", 8);
    padded_literal(&mut v, "TITLE", 20);
    padded_literal(&mut v, "CYCLE", 9);
    padded_literal(&mut v, "LEAD", 9);
    padded_literal(&mut v, "TOKENS", 9);
    padded_literal(&mut v, "SIZE", 8);
    push_str(&mut v, "REWORK");
    string_of(&v)
}

/// One line of the done-task table.
pub fn format_done_row(r: &TaskReport) -> (out: String)
    requires
        tokens_fit(r.tokens),
    ensures
        out@ == done_row_text(*r),
{
    proof {
        reveal_strlit("\u{2014}");
        reveal_strlit("+");
    }
    let cycle = ms_cell_text(&r.cycle_time);
    let lead = ms_cell_text(&r.lead_time);
    let tokens = match &r.tokens {
        Some(t) => format_number(t.total()),
        None => "\u{2014}".to_owned(),
    };
    let size = match &r.task_size {
        Some(s) => {
            let mut w = chars_of("+");
            let d = dec_u64(s.additions as u64);
            push_all(&mut w, &d);
            string_of(&w)
        },
        None => "\u{2014}".to_owned(),
    };
    let title = truncate(r.title.as_str(), 18);
    let mut v: Vec<char> = Vec::new();
    padded_string(&mut v, &r.id, 8);
    padded_string(&mut v, &title, 20);
    padded_string(&mut v, &cycle, 9);
    padded_string(&mut v, &lead, 9);
    padded_string(&mut v, &tokens, 9);
    padded_string(&mut v, &size, 8);
    if r.has_rework {
        push_str(&mut v, "yes");
    } else {
        push_str(&mut v, "no");
    }
    string_of(&v)
}

/// The header line of the incomplete-task table.
pub fn format_incomplete_header() -> (r: String)
    ensures
        r@ == incomplete_header_text(),
{
    let mut v: Vec<char> = Vec::new();
    padded_literal(&mut v, "ID", 8);
    padded_literal(&mut v, "TITLE", 20);
    padded_literal(&mut v, "STATUS", 14);
    push_str(&mut v, "AGE");
    string_of(&v)
}

/// One line of the incomplete-task table.
pub fn format_incomplete_row(t: &IncompleteTask) -> (out: String)
    ensures
        out@ == incomplete_row_text(*t),
{
    let age = ms_cell_text(&t.issue_age);
    let title = truncate(t.title.as_str(), 18);
    let mut v: Vec<char> = Vec::new();
    padded_string(&mut v, &t.id, 8);
    padded_string(&mut v, &title, 20);
    padded_string(&mut v, &t.status_name, 14);
    push_str(&mut v, age.as_str());
    string_of(&v)
}

/// The summary figures of a cycle report. The three rates are given as
/// they are printed: whole percents and the two-decimal average flow
/// efficiency (`None` when no done task has one).
pub struct CycleSummary {
    pub completion_percent: u32,
    pub planned_done_count: usize,
    pub planned_total: usize,
    pub throughput: usize,
    pub planned_throughput: usize,
    pub unplanned_throughput: usize,
    pub avg_flow_eff_text: Option<String>,
    pub first_time_done_percent: u32,
}

/// The counts of a cycle summary: how many planned tasks there are, how
/// many tasks were done in all, and how the done tasks split into planned
/// and unplanned ones.
pub open spec fn summary_counts(planned_done: nat, planned_incomplete: nat, done: nat) -> (nat, nat, nat, nat) {
    (
        planned_done + planned_incomplete,
        done,
        planned_done,
        if done >= planned_done { (done - planned_done) as nat } else { 0 },
    )
}

/// Computes the counts of the summary: planned total, throughput, planned
/// throughput and unplanned throughput (the part of the throughput beyond
/// the planned done tasks, never below zero).
pub fn summary_counts_of(planned_done: usize, planned_incomplete: usize, done_reports: usize) -> (r: (usize, usize, usize, usize))
    requires
        planned_done + planned_incomplete <= usize::MAX,
    ensures
        (r.0 as nat, r.1 as nat, r.2 as nat, r.3 as nat) == summary_counts(
            planned_done as nat,
            planned_incomplete as nat,
            done_reports as nat,
        ),
{
    let unplanned = if done_reports >= planned_done { done_reports - planned_done } else { 0 };
    (planned_done + planned_incomplete, done_reports, planned_done, unplanned)
}

/// Everything the cycle report shows.
pub struct FormatCycleReportInput<'a> {
    pub cycle_name: &'a str,
    pub start_date: &'a str,
    pub end_date: &'a str,
    pub status: &'a str,
    pub planned_done: &'a [TaskReport],
    pub planned_incomplete: &'a [IncompleteTask],
    pub unplanned_done: &'a [TaskReport],
    pub summary: &'a CycleSummary,
}

/// The rows of the done-task table.
pub open spec fn done_rows(rs: Seq<TaskReport>) -> Seq<Seq<char>> {
    Seq::new(rs.len(), |i: int| done_row_text(rs[i]))
}

/// The rows of the incomplete-task table.
pub open spec fn incomplete_rows(ts: Seq<IncompleteTask>) -> Seq<Seq<char>> {
    Seq::new(ts.len(), |i: int| incomplete_row_text(ts[i]))
}

/// The first line of the report.
pub open spec fn report_title(name: Seq<char>, start: Seq<char>, end: Seq<char>, status: Seq<char>) -> Seq<char> {
    "=== Cycle Report: \""@ + name + "\" ("@ + start + " ~ "@ + end + ", "@ + status + ") ==="@
}

/// The heading of a section of planned tasks: its size out of all planned
/// tasks.
pub open spec fn section_title(label: Seq<char>, n: nat, total: nat) -> Seq<char> {
    "--- "@ + label + " ("@ + dec(n) + "/"@ + dec(total) + " tasks) ---"@
}

/// The planned-done section: left out when there is no such task.
pub open spec fn planned_done_section(rs: Seq<TaskReport>, planned_total: nat) -> Seq<Seq<char>> {
    if rs.len() == 0 {
        seq![]
    } else {
        seq![
            seq![],
            section_title("Planned Done"@, rs.len(), planned_total),
            done_header_text(),
        ] + done_rows(rs)
    }
}

/// The planned-incomplete section: left out when there is no such task.
pub open spec fn planned_incomplete_section(ts: Seq<IncompleteTask>, planned_total: nat) -> Seq<Seq<char>> {
    if ts.len() == 0 {
        seq![]
    } else {
        seq![
            seq![],
            section_title("Planned Incomplete"@, ts.len(), planned_total),
            incomplete_header_text(),
        ] + incomplete_rows(ts)
    }
}

/// The unplanned-done section: left out when there is no such task; a
/// single task is counted as `1 task`.
pub open spec fn unplanned_done_section(rs: Seq<TaskReport>) -> Seq<Seq<char>> {
    if rs.len() == 0 {
        seq![]
    } else {
        seq![
            seq![],
            "--- Unplanned Done ("@ + dec(rs.len()) + (if rs.len() == 1 { " task"@ } else { " tasks"@ }) + ") ---"@,
            done_header_text(),
        ] + done_rows(rs)
    }
}

/// The closing summary section.
pub open spec fn summary_section(s: CycleSummary) -> Seq<Seq<char>> {
    seq![
        seq![],
        "--- Summary ---"@,
        "completion_rate: "@ + dec(s.completion_percent as nat) + "% ("@ + dec(s.planned_done_count as nat) + "/"@
            + dec(s.planned_total as nat) + "  planned)"@,
        "throughput: "@ + dec(s.throughput as nat) + " tasks ("@ + dec(s.planned_throughput as nat) + " planned + "@
            + dec(s.unplanned_throughput as nat) + " unplanned)"@,
        "flow_efficiency(avg): "@ + match s.avg_flow_eff_text {
            Some(t) => t@,
            None => dash(),
        },
        "first_time_done: "@ + dec(s.first_time_done_percent as nat) + "%"@,
    ]
}

/// All lines of the cycle report.
pub open spec fn report_lines(input: FormatCycleReportInput) -> Seq<Seq<char>> {
    seq![report_title(input.cycle_name@, input.start_date@, input.end_date@, input.status@)]
        + planned_done_section(input.planned_done@, input.summary.planned_total as nat)
        + planned_incomplete_section(input.planned_incomplete@, input.summary.planned_total as nat)
        + unplanned_done_section(input.unplanned_done@)
        + summary_section(*input.summary)
}

pub(crate) fn dec_usize(n: usize) -> (r: Vec<char>)
    ensures
        r@ == dec(n as nat),
{
    dec_u64(n as u64)
}

pub(crate) fn push_line(lines: &mut Vec<Vec<char>>, line: Vec<char>)
    ensures
        views(final(lines)@) == views(old(lines)@).push(line@),
{
    lines.push(line);
    assert(views(final(lines)@) =~= views(old(lines)@).push(line@));
}

pub(crate) fn push_done_rows(lines: &mut Vec<Vec<char>>, rs: &[TaskReport])
    requires
        forall|i: int| 0 <= i < rs@.len() ==> tokens_fit(#[trigger] rs@[i].tokens),
    ensures
        views(final(lines)@) == views(old(lines)@) + done_rows(rs@),
{
    let mut i: usize = 0;
    while i < rs.len()
        invariant
            i <= rs@.len(),
            forall|k: int| 0 <= k < rs@.len() ==> tokens_fit(#[trigger] rs@[k].tokens),
            views(lines@) == views(old(lines)@) + done_rows(rs@).take(i as int),
        decreases rs@.len() - i,
    {
        let row = format_done_row(&rs[i]);
        let ghost before = views(lines@);
        push_line(lines, chars_of(row.as_str()));
        assert(done_rows(rs@).take(i + 1) =~= done_rows(rs@).take(i as int).push(done_row_text(rs@[i as int])));
        assert(views(lines@) =~= views(old(lines)@) + done_rows(rs@).take(i + 1));
        i = i + 1;
    }
    assert(done_rows(rs@).take(rs@.len() as int) =~= done_rows(rs@));
}

fn push_incomplete_rows(lines: &mut Vec<Vec<char>>, ts: &[IncompleteTask])
    ensures
        views(final(lines)@) == views(old(lines)@) + incomplete_rows(ts@),
{
    let mut i: usize = 0;
    while i < ts.len()
        invariant
            i <= ts@.len(),
            views(lines@) == views(old(lines)@) + incomplete_rows(ts@).take(i as int),
        decreases ts@.len() - i,
    {
        let row = format_incomplete_row(&ts[i]);
        push_line(lines, chars_of(row.as_str()));
        assert(incomplete_rows(ts@).take(i + 1) =~= incomplete_rows(ts@).take(i as int).push(
            incomplete_row_text(ts@[i as int]),
        ));
        assert(views(lines@) =~= views(old(lines)@) + incomplete_rows(ts@).take(i + 1));
        i = i + 1;
    }
    assert(incomplete_rows(ts@).take(ts@.len() as int) =~= incomplete_rows(ts@));
}

fn section_count_line(label: &str, n: usize, total: usize) -> (r: Vec<char>)
    ensures
        r@ == section_title(label@, n as nat, total as nat),
{
    let mut v = chars_of("--- ");
    push_str(&mut v, label);
    push_str(&mut v, " (");
    let d = dec_usize(n);
    push_all(&mut v, &d);
    push_str(&mut v, "/");
    let t = dec_usize(total);
    push_all(&mut v, &t);
    push_str(&mut v, " tasks) ---");
    v
}

fn summary_lines(lines: &mut Vec<Vec<char>>, s: &CycleSummary)
    ensures
        views(final(lines)@) == views(old(lines)@) + summary_section(*s),
{
    proof {
        reveal_strlit("\u{2014}");
    }
    let ghost base = views(lines@);
    let ghost want = summary_section(*s);
    push_line(lines, Vec::new());
    push_line(lines, chars_of("--- Summary ---"));
    let mut c = chars_of("completion_rate: ");
    push_all(&mut c, &dec_u64(s.completion_percent as u64));
    push_str(&mut c, "% (");
    push_all(&mut c, &dec_usize(s.planned_done_count));
    push_str(&mut c, "/");
    push_all(&mut c, &dec_usize(s.planned_total));
    push_str(&mut c, "  planned)");
    assert(c@ == want[2]);
    push_line(lines, c);
    let mut t = chars_of("throughput: ");
    push_all(&mut t, &dec_usize(s.throughput));
    push_str(&mut t, " tasks (");
    push_all(&mut t, &dec_usize(s.planned_throughput));
    push_str(&mut t, " planned + ");
    push_all(&mut t, &dec_usize(s.unplanned_throughput));
    push_str(&mut t, " unplanned)");
    assert(t@ == want[3]);
    push_line(lines, t);
    let mut f = chars_of("flow_efficiency(avg): ");
    match &s.avg_flow_eff_text {
        Some(x) => push_str(&mut f, x.as_str()),
        None => push_str(&mut f, "\u{2014}"),
    }
    assert(f@ == want[4]);
    push_line(lines, f);
    let mut d = chars_of("first_time_done: ");
    push_all(&mut d, &dec_u64(s.first_time_done_percent as u64));
    push_str(&mut d, "%");
    assert(d@ == want[5]);
    push_line(lines, d);
    assert(want[0] =~= seq![]);
    assert(views(lines@) =~= base + want);
}

/// Lays out the whole cycle report: title, the three task sections (each
/// left out when empty) and the summary, one line each, joined with line
/// feeds.
pub fn format_cycle_report(input: &FormatCycleReportInput) -> (r: String)
    requires
        forall|i: int| 0 <= i < input.planned_done@.len() ==> tokens_fit(#[trigger] input.planned_done@[i].tokens),
        forall|i: int| 0 <= i < input.unplanned_done@.len() ==> tokens_fit(#[trigger] input.unplanned_done@[i].tokens),
    ensures
        r@ == join_lines(report_lines(*input)),
{
    proof {
        reveal_strlit("\u{2014}");
    }
    let mut lines: Vec<Vec<char>> = Vec::new();
    let mut title = chars_of("=== Cycle Report: \"");
    push_str(&mut title, input.cycle_name);
    push_str(&mut title, "\" (");
    push_str(&mut title, input.start_date);
    push_str(&mut title, " ~ ");
    push_str(&mut title, input.end_date);
    push_str(&mut title, ", ");
    push_str(&mut title, input.status);
    push_str(&mut title, ") ===");
    push_line(&mut lines, title);
    assert(views(lines@) =~= seq![report_title(input.cycle_name@, input.start_date@, input.end_date@, input.status@)]);
    let ghost after_title = views(lines@);

    if input.planned_done.len() > 0 {
        push_line(&mut lines, Vec::new());
        push_line(&mut lines, section_count_line("Planned Done", input.planned_done.len(), input.summary.planned_total));
        push_line(&mut lines, chars_of(format_done_header().as_str()));
        let ghost mid = views(lines@);
        push_done_rows(&mut lines, input.planned_done);
        assert(mid =~= after_title + seq![
            seq![],
            section_title("Planned Done"@, input.planned_done@.len(), input.summary.planned_total as nat),
            done_header_text(),
        ]);
    }
    assert(views(lines@) =~= after_title + planned_done_section(input.planned_done@, input.summary.planned_total as nat));
    let ghost after_pd = views(lines@);

    if input.planned_incomplete.len() > 0 {
        push_line(&mut lines, Vec::new());
        push_line(&mut lines, section_count_line("Planned Incomplete", input.planned_incomplete.len(), input.summary.planned_total));
        push_line(&mut lines, chars_of(format_incomplete_header().as_str()));
        let ghost mid = views(lines@);
        push_incomplete_rows(&mut lines, input.planned_incomplete);
        assert(mid =~= after_pd + seq![
            seq![],
            section_title("Planned Incomplete"@, input.planned_incomplete@.len(), input.summary.planned_total as nat),
            incomplete_header_text(),
        ]);
    }
    assert(views(lines@) =~= after_pd + planned_incomplete_section(input.planned_incomplete@, input.summary.planned_total as nat));
    let ghost after_pi = views(lines@);

    if input.unplanned_done.len() > 0 {
        push_line(&mut lines, Vec::new());
        let mut h = chars_of("--- Unplanned Done (");
        push_all(&mut h, &dec_usize(input.unplanned_done.len()));
        if input.unplanned_done.len() == 1 {
            push_str(&mut h, " task");
        } else {
            push_str(&mut h, " tasks");
        }
        push_str(&mut h, ") ---");
        push_line(&mut lines, h);
        push_line(&mut lines, chars_of(format_done_header().as_str()));
        let ghost mid = views(lines@);
        push_done_rows(&mut lines, input.unplanned_done);
        assert(mid =~= after_pi + unplanned_done_section(input.unplanned_done@).take(3));
        assert(unplanned_done_section(input.unplanned_done@) =~= unplanned_done_section(input.unplanned_done@).take(3) + done_rows(input.unplanned_done@));
    }
    assert(views(lines@) =~= after_pi + unplanned_done_section(input.unplanned_done@));
    let ghost after_ud = views(lines@);

    summary_lines(&mut lines, input.summary);
    assert(views(lines@) =~= report_lines(*input));
    string_of(&join_with_newlines(&lines))
}

/// Each table has exactly one row per task, in the order of the tasks:
/// row `i` is the row of task `i`.
pub proof fn lemma_one_row_per_task(rs: Seq<TaskReport>, ts: Seq<IncompleteTask>)
    ensures
        done_rows(rs).len() == rs.len(),
        forall|i: int| 0 <= i < rs.len() ==> #[trigger] done_rows(rs)[i] == done_row_text(rs[i]),
        incomplete_rows(ts).len() == ts.len(),
        forall|i: int| 0 <= i < ts.len() ==> #[trigger] incomplete_rows(ts)[i] == incomplete_row_text(
            ts[i],
        ),
{
}

/// The lines of a section: a blank line, its heading and its table header,
/// then one line per task; nothing for an empty section.
pub open spec fn section_size(n: nat) -> nat {
    if n == 0 {
        0
    } else {
        n + 3
    }
}

/// The report has the title line, each non-empty section with one line per
/// task, and the six summary lines: its line count follows from the
/// numbers of tasks alone.
pub proof fn lemma_report_line_count(input: FormatCycleReportInput)
    ensures
        report_lines(input).len() == 1 + section_size(input.planned_done@.len()) + section_size(
            input.planned_incomplete@.len(),
        ) + section_size(input.unplanned_done@.len()) + 6,
{
    lemma_one_row_per_task(input.planned_done@, input.planned_incomplete@);
    lemma_one_row_per_task(input.unplanned_done@, input.planned_incomplete@);
}

/// A task lands in a planned section exactly when it was assigned on
/// purpose, in a done section exactly when its category is completed, and
/// is left out exactly when it was included automatically and is not
/// completed.
pub proof fn lemma_sections_follow_assignment_and_completion(a: Assigned, c: StatusCategory)
    ensures
        (category_of(a, c) == Some(CycleReportCategory::PlannedDone) || category_of(a, c) == Some(
            CycleReportCategory::PlannedIncomplete,
        )) <==> a == Assigned::Planned,
        (category_of(a, c) == Some(CycleReportCategory::PlannedDone) || category_of(a, c) == Some(
            CycleReportCategory::UnplannedDone,
        )) <==> c == StatusCategory::Completed,
        category_of(a, c) is None <==> (a == Assigned::Auto && c != StatusCategory::Completed),
{
}

/// The planned tasks are the done and the incomplete ones together, and
/// when no more planned tasks are done than tasks are done in all, the
/// planned and unplanned throughput add up to the throughput.
pub proof fn lemma_summary_counts_add_up(planned_done: nat, planned_incomplete: nat, done: nat)
    ensures
        summary_counts(planned_done, planned_incomplete, done).0 == planned_done + planned_incomplete,
        summary_counts(planned_done, planned_incomplete, done).1 == done,
        planned_done <= done ==> summary_counts(planned_done, planned_incomplete, done).2
            + summary_counts(planned_done, planned_incomplete, done).3 == done,
{
}

} // verus!
