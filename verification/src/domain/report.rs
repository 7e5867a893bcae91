//! Human-readable rendering of durations, counts and titles in reports.

use vstd::prelude::*;
use crate::domain::cycle_report::{
    dash, dec_usize, done_header_text, done_row_text, done_rows, format_done_header, ms_cell,
    ms_cell_text, push_done_rows, push_line, tokens_fit, lemma_one_row_per_task,
};
use crate::domain::value::Ms;
use crate::text::{
    chars_of, dec, dec_u64, join_lines, join_with_newlines, push_all, push_str, string_of, views,
};

pub use crate::domain::cycle_report::TaskReport;

verus! {

broadcast use vstd::string::group_string_axioms;

/// How a duration reads in a report: whole minutes under an hour
/// (`"45m"`), hours and minutes under a day (`"2h 30m"`, `"3h"`), days and
/// hours beyond (`"1d 4h"`, `"2d"`); zero or negative spans read `"0m"`.
pub open spec fn ms_text(ms: int) -> Seq<char> {
    if ms <= 0 {
        "0m"@
    } else {
        let minutes = ms / 60000;
        let hours = minutes / 60;
        let days = hours / 24;
        if days > 0 {
            if hours % 24 > 0 {
                dec(days as nat) + "d "@ + dec((hours % 24) as nat) + "h"@
            } else {
                dec(days as nat) + "d"@
            }
        } else if hours > 0 {
            if minutes % 60 > 0 {
                dec(hours as nat) + "h "@ + dec((minutes % 60) as nat) + "m"@
            } else {
                dec(hours as nat) + "h"@
            }
        } else {
            dec(minutes as nat) + "m"@
        }
    }
}

/// Renders a duration for a report.
pub fn format_ms(ms: &Ms) -> (r: String)
    ensures
        r@ == ms_text(ms@ as int),
{
    let total_ms = ms.value();
    if total_ms <= 0 {
        return "0m".to_owned();
    }
    let total_minutes = (total_ms / 60000) as u64;
    let total_hours = total_minutes / 60;
    let total_days = total_hours / 24;
    let mut v: Vec<char>;
    if total_days > 0 {
        v = dec_u64(total_days);
        let remaining_hours = total_hours % 24;
        if remaining_hours > 0 {
            push_str(&mut v, "d ");
            let h = dec_u64(remaining_hours);
            push_all(&mut v, &h);
            push_str(&mut v, "h");
        } else {
            push_str(&mut v, "d");
        }
    } else if total_hours > 0 {
        v = dec_u64(total_hours);
        let remaining_minutes = total_minutes % 60;
        if remaining_minutes > 0 {
            push_str(&mut v, "h ");
            let m = dec_u64(remaining_minutes);
            push_all(&mut v, &m);
            push_str(&mut v, "m");
        } else {
            push_str(&mut v, "h");
        }
    } else {
        v = dec_u64(total_minutes);
        push_str(&mut v, "m");
    }
    string_of(&v)
}

/// Digits grouped in threes from the right, separated by commas.
pub open spec fn group_thousands(d: Seq<char>) -> Seq<char>
    decreases d.len(),
{
    if d.len() <= 3 {
        d
    } else {
        group_thousands(d.take(d.len() - 3)) + seq![','] + d.skip(d.len() - 3)
    }
}

/// Groups the first `k` characters of `d` in threes from the right.
fn grouped_prefix(d: &Vec<char>, k: usize) -> (r: Vec<char>)
    requires
        k <= d@.len(),
    ensures
        r@ == group_thousands(d@.take(k as int)),
    decreases k,
{
    if k <= 3 {
        let mut r: Vec<char> = Vec::new();
        let mut i: usize = 0;
        while i < k
            invariant
                i <= k <= d@.len(),
                r@ == d@.take(i as int),
            decreases k - i,
        {
            r.push(d[i]);
            assert(d@.take(i + 1) =~= d@.take(i as int).push(d@[i as int]));
            i = i + 1;
        }
        r
    } else {
        let mut r = grouped_prefix(d, k - 3);
        r.push(',');
        let ghost left = r@;
        let mut i: usize = k - 3;
        while i < k
            invariant
                3 < k <= d@.len(),
                k - 3 <= i <= k,
                r@ == left + d@.subrange(k - 3, i as int),
            decreases k - i,
        {
            r.push(d[i]);
            assert(d@.subrange(k - 3, i + 1) =~= d@.subrange(k - 3, i as int).push(d@[i as int]));
            i = i + 1;
        }
        assert(d@.take(k as int).take(k - 3) =~= d@.take(k - 3));
        assert(d@.take(k as int).skip(k - 3) =~= d@.subrange(k - 3, k as int));
        r
    }
}

/// Renders a count with thousands separators (`45230` as `"45,230"`).
pub fn format_number(n: u64) -> (r: String)
    ensures
        r@ == group_thousands(dec(n as nat)),
{
    let d = dec_u64(n);
    let g = grouped_prefix(&d, d.len());
    assert(d@.take(d@.len() as int) =~= d@);
    string_of(&g)
}

/// A title cut to at most `max_len` characters: titles that fit are kept,
/// longer ones keep their first `max_len - 1` characters and end with `…`.
pub open spec fn truncated(s: Seq<char>, max_len: nat) -> Seq<char> {
    if s.len() <= max_len {
        s
    } else {
        s.take(max_len - 1) + seq!['\u{2026}']
    }
}

/// Shortens `s` to at most `max_len` characters.
pub fn truncate(s: &str, max_len: usize) -> (r: String)
    requires
        max_len > 0 || s@.len() == 0,
    ensures
        r@ == truncated(s@, max_len as nat),
{
    let v = chars_of(s);
    if v.len() <= max_len {
        return s.to_owned();
    }
    let mut r: Vec<char> = Vec::new();
    let mut i: usize = 0;
    while i < max_len - 1
        invariant
            0 < max_len < v@.len(),
            i <= max_len - 1,
            r@ == v@.take(i as int),
        decreases max_len - 1 - i,
    {
        r.push(v[i]);
        assert(v@.take(i + 1) =~= v@.take(i as int).push(v@[i as int]));
        i = i + 1;
    }
    r.push('\u{2026}');
    string_of(&r)
}

/// The closing line of the summary table.
pub open spec fn summary_footer(throughput: u32, avg_flow: Option<Seq<char>>, ftd_percent: u32) -> Seq<char> {
    "throughput: "@ + dec(throughput as nat) + " tasks    flow_efficiency(avg): "@ + match avg_flow {
        Some(t) => t,
        None => dash(),
    } + "    first_time_done: "@ + dec(ftd_percent as nat) + "%"@
}

/// The lines of the summary table: header, one row per task, a rule and
/// the footer.
pub open spec fn summary_table_lines(
    reports: Seq<TaskReport>,
    throughput: u32,
    avg_flow: Option<Seq<char>>,
    ftd_percent: u32,
) -> Seq<Seq<char>> {
    seq![done_header_text()] + done_rows(reports) + seq!["---"@, summary_footer(throughput, avg_flow, ftd_percent)]
}

/// Lays out the summary table of the given done tasks. The average flow
/// efficiency comes as its printed two-decimal text (`None` when no task
/// has one) and the first-time-done rate as whole percents.
pub fn format_summary(
    reports: &[TaskReport],
    throughput: u32,
    avg_flow_eff: Option<&str>,
    first_time_done_percent: u32,
) -> (r: String)
    requires
        forall|i: int| 0 <= i < reports@.len() ==> tokens_fit(#[trigger] reports@[i].tokens),
    ensures
        r@ == join_lines(
            summary_table_lines(
                reports@,
                throughput,
                match avg_flow_eff {
                    Some(t) => Some(t@),
                    None => None,
                },
                first_time_done_percent,
            ),
        ),
{
    proof {
        reveal_strlit("\u{2014}");
    }
    let ghost flow = match avg_flow_eff {
        Some(t) => Some(t@),
        None => None,
    };
    let mut lines: Vec<Vec<char>> = Vec::new();
    push_line(&mut lines, chars_of(format_done_header().as_str()));
    assert(views(lines@) =~= seq![done_header_text()]);
    push_done_rows(&mut lines, reports);
    let ghost with_rows = views(lines@);
    push_line(&mut lines, chars_of("---"));
    let mut f = chars_of("throughput: ");
    push_all(&mut f, &dec_u64(throughput as u64));
    push_str(&mut f, " tasks    flow_efficiency(avg): ");
    match avg_flow_eff {
        Some(t) => push_str(&mut f, t),
        None => push_str(&mut f, "\u{2014}"),
    }
    push_str(&mut f, "    first_time_done: ");
    push_all(&mut f, &dec_u64(first_time_done_percent as u64));
    push_str(&mut f, "%");
    assert(f@ == summary_footer(throughput, flow, first_time_done_percent));
    push_line(&mut lines, f);
    assert(views(lines@) =~= with_rows + seq!["---"@, summary_footer(throughput, flow, first_time_done_percent)]);
    assert(views(lines@) =~= summary_table_lines(reports@, throughput, flow, first_time_done_percent));
    string_of(&join_with_newlines(&lines))
}

/// The proxy figures of a task as the detail view prints them; the share
/// of failed shell calls comes as its printed two-decimal text.
pub struct ProxyFigures {
    pub test_invoked: bool,
    pub doom_loop_count: u32,
    pub bash_error_rate_text: String,
}

/// A done task with what the detail view adds to its table row: the
/// printed flow efficiency and the proxy figures, when there are any.
pub struct DetailReport {
    pub report: TaskReport,
    pub flow_efficiency_text: Option<String>,
    pub proxy: Option<ProxyFigures>,
}

/// The lines describing one task in the detail view.
pub open spec fn detail_section(d: DetailReport) -> Seq<Seq<char>> {
    let r = d.report;
    let head = seq![
        "=== "@ + r.id@ + ": "@ + r.title@ + " ==="@,
        "cycle_time: "@ + ms_cell(r.cycle_time) + "    lead_time: "@ + ms_cell(r.lead_time)
            + "    flow_efficiency: "@ + match d.flow_efficiency_text {
            Some(t) => t@,
            None => dash(),
        },
        match r.tokens {
            Some(t) => "tokens: "@ + group_thousands(dec((t.input_tokens + t.output_tokens) as nat))
                + " (input: "@ + group_thousands(dec(t.input_tokens as nat)) + " / output: "@
                + group_thousands(dec(t.output_tokens as nat)) + ")"@,
            None => "tokens: "@ + dash(),
        },
        match r.task_size {
            Some(z) => "task_size: +"@ + dec(z.additions as nat) + " -"@ + dec(z.deletions as nat)
                + " ("@ + dec(z.files_changed as nat) + " files)"@,
            None => "task_size: "@ + dash(),
        },
    ];
    match d.proxy {
        Some(p) => head.push(
            "test_invoked: "@ + (if p.test_invoked {
                "true"@
            } else {
                "false"@
            }) + "    doom_loop: "@ + dec(p.doom_loop_count as nat) + "    bash_error_rate: "@
                + p.bash_error_rate_text@,
        ),
        None => head,
    }
}

/// All lines of the detail view: the sections of the tasks, an empty line
/// between two sections.
pub open spec fn detail_lines(ds: Seq<DetailReport>) -> Seq<Seq<char>>
    decreases ds.len(),
{
    if ds.len() == 0 {
        seq![]
    } else if ds.len() == 1 {
        detail_section(ds[0])
    } else {
        detail_lines(ds.drop_last()) + seq![seq![]] + detail_section(ds.last())
    }
}

fn push_detail_section(lines: &mut Vec<Vec<char>>, d: &DetailReport)
    requires
        tokens_fit(d.report.tokens),
    ensures
        views(final(lines)@) == views(old(lines)@) + detail_section(*d),
{
    proof {
        reveal_strlit("\u{2014}");
    }
    let ghost base = views(lines@);
    let ghost want = detail_section(*d);
    let r = &d.report;
    let mut h = chars_of("=== ");
    push_str(&mut h, r.id.as_str());
    push_str(&mut h, ": ");
    push_str(&mut h, r.title.as_str());
    push_str(&mut h, " ===");
    assert(h@ == want[0]);
    push_line(lines, h);
    let mut c = chars_of("cycle_time: ");
    push_str(&mut c, ms_cell_text(&r.cycle_time).as_str());
    push_str(&mut c, "    lead_time: ");
    push_str(&mut c, ms_cell_text(&r.lead_time).as_str());
    push_str(&mut c, "    flow_efficiency: ");
    match &d.flow_efficiency_text {
        Some(t) => push_str(&mut c, t.as_str()),
        None => push_str(&mut c, "\u{2014}"),
    }
    assert(c@ == want[1]);
    push_line(lines, c);
    let mut t = chars_of("tokens: ");
    match &r.tokens {
        Some(u) => {
            push_str(&mut t, format_number(u.total()).as_str());
            push_str(&mut t, " (input: ");
            push_str(&mut t, format_number(u.input_tokens).as_str());
            push_str(&mut t, " / output: ");
            push_str(&mut t, format_number(u.output_tokens).as_str());
            push_str(&mut t, ")");
        },
        None => push_str(&mut t, "\u{2014}"),
    }
    assert(t@ == want[2]);
    push_line(lines, t);
    let z = match &r.task_size {
        Some(s) => {
            let mut z = chars_of("task_size: +");
            push_all(&mut z, &dec_u64(s.additions as u64));
            push_str(&mut z, " -");
            push_all(&mut z, &dec_u64(s.deletions as u64));
            push_str(&mut z, " (");
            push_all(&mut z, &dec_u64(s.files_changed as u64));
            push_str(&mut z, " files)");
            z
        },
        None => {
            let mut z = chars_of("task_size: ");
            push_str(&mut z, "\u{2014}");
            z
        },
    };
    assert(z@ == want[3]);
    push_line(lines, z);
    match &d.proxy {
        Some(p) => {
            let mut q = chars_of("test_invoked: ");
            if p.test_invoked {
                push_str(&mut q, "true");
            } else {
                push_str(&mut q, "false");
            }
            push_str(&mut q, "    doom_loop: ");
            push_all(&mut q, &dec_u64(p.doom_loop_count as u64));
            push_str(&mut q, "    bash_error_rate: ");
            push_str(&mut q, p.bash_error_rate_text.as_str());
            assert(q@ == want[4]);
            push_line(lines, q);
        },
        None => {},
    }
    assert(views(lines@) =~= base + want);
}

/// Lays out the detail view: one section per task, separated by an empty
/// line.
pub fn format_detail(reports: &[DetailReport]) -> (r: String)
    requires
        forall|i: int| 0 <= i < reports@.len() ==> tokens_fit(#[trigger] reports@[i].report.tokens),
    ensures
        r@ == join_lines(detail_lines(reports@)),
{
    let mut lines: Vec<Vec<char>> = Vec::new();
    let mut i: usize = 0;
    while i < reports.len()
        invariant
            i <= reports@.len(),
            forall|k: int| 0 <= k < reports@.len() ==> tokens_fit(#[trigger] reports@[k].report.tokens),
            views(lines@) == detail_lines(reports@.take(i as int)),
        decreases reports@.len() - i,
    {
        let ghost before = views(lines@);
        assert(reports@.take(i + 1).drop_last() =~= reports@.take(i as int));
        assert(reports@.take(i + 1).last() == reports@[i as int]);
        if i > 0 {
            push_line(&mut lines, Vec::new());
        } else {
            assert(reports@.take(1) =~= seq![reports@[0]]);
        }
        push_detail_section(&mut lines, &reports[i]);
        assert(views(lines@) =~= detail_lines(reports@.take(i + 1)));
        i += 1;
    }
    assert(reports@.take(i as int) =~= reports@);
    string_of(&join_with_newlines(&lines))
}

/// A shortened title never exceeds the asked length.
pub proof fn lemma_truncated_fits(s: Seq<char>, max_len: nat)
    requires
        max_len > 0 || s.len() == 0,
    ensures
        truncated(s, max_len).len() <= max_len,
        s.len() <= max_len ==> truncated(s, max_len) == s,
{
}

/// The text with its commas removed.
pub open spec fn without_commas(s: Seq<char>) -> Seq<char>
    decreases s.len(),
{
    if s.len() == 0 {
        s
    } else if s.last() == ',' {
        without_commas(s.drop_last())
    } else {
        without_commas(s.drop_last()).push(s.last())
    }
}

proof fn lemma_without_commas_append(a: Seq<char>, b: Seq<char>)
    ensures
        without_commas(a + b) == without_commas(a) + without_commas(b),
    decreases b.len(),
{
    if b.len() == 0 {
        assert(a + b =~= a);
        assert(without_commas(a) + without_commas(b) =~= without_commas(a));
    } else {
        assert((a + b).drop_last() =~= a + b.drop_last());
        lemma_without_commas_append(a, b.drop_last());
        if b.last() != ',' {
            assert(without_commas(a) + without_commas(b) =~= without_commas(a) + without_commas(
                b.drop_last(),
            ).push(b.last()));
        }
    }
}

proof fn lemma_without_commas_plain(d: Seq<char>)
    requires
        !d.contains(','),
    ensures
        without_commas(d) == d,
    decreases d.len(),
{
    if d.len() > 0 {
        assert(!d.drop_last().contains(',')) by {
            if d.drop_last().contains(',') {
                let k = choose|k: int| 0 <= k < d.drop_last().len() && d.drop_last()[k] == ',';
                assert(d[k] == ',');
            }
        }
        lemma_without_commas_plain(d.drop_last());
        assert(d.last() != ',') by {
            if d.last() == ',' {
                assert(d[d.len() - 1] == ',');
            }
        }
        assert(d.drop_last().push(d.last()) =~= d);
    }
}

/// Grouping digits in threes only adds commas: taking them out gives the
/// digits back, so a grouped count reads as the same number.
pub proof fn lemma_grouping_keeps_digits(d: Seq<char>)
    requires
        !d.contains(','),
    ensures
        without_commas(group_thousands(d)) == d,
    decreases d.len(),
{
    if d.len() <= 3 {
        lemma_without_commas_plain(d);
    } else {
        let head = d.take(d.len() - 3);
        let tail = d.skip(d.len() - 3);
        assert(!head.contains(',')) by {
            if head.contains(',') {
                let k = choose|k: int| 0 <= k < head.len() && head[k] == ',';
                assert(d[k] == ',');
            }
        }
        assert(!tail.contains(',')) by {
            if tail.contains(',') {
                let k = choose|k: int| 0 <= k < tail.len() && tail[k] == ',';
                assert(d[d.len() - 3 + k] == ',');
            }
        }
        lemma_grouping_keeps_digits(head);
        lemma_without_commas_plain(tail);
        lemma_without_commas_append(group_thousands(head) + seq![','], tail);
        lemma_without_commas_append(group_thousands(head), seq![',']);
        let comma = seq![','];
        assert(comma.len() == 1 && comma.last() == ',');
        assert(comma.drop_last() =~= Seq::<char>::empty());
        assert(without_commas(Seq::<char>::empty()) == Seq::<char>::empty());
        assert(without_commas(comma) == without_commas(comma.drop_last()));
        assert(head + tail =~= d);
    }
}

proof fn lemma_numeral_has_no_comma(n: nat)
    ensures
        !dec(n).contains(','),
    decreases n,
{
    if n >= 10 {
        lemma_numeral_has_no_comma(n / 10);
        let d = dec(n);
        if d.contains(',') {
            let k = choose|k: int| 0 <= k < d.len() && d[k] == ',';
            if k < d.len() - 1 {
                assert(dec(n / 10)[k] == ',');
            }
        }
    } else {
        let d = dec(n);
        if d.contains(',') {
            let k = choose|k: int| 0 <= k < d.len() && d[k] == ',';
            assert(d[0] == ',');
        }
    }
}

/// A count rendered with thousands separators reads as the same number:
/// taking the commas out of `format_number(n)` leaves the decimal digits
/// of `n`.
pub proof fn lemma_formatted_count_keeps_digits(n: nat)
    ensures
        without_commas(group_thousands(dec(n))) == dec(n),
{
    lemma_numeral_has_no_comma(n);
    lemma_grouping_keeps_digits(dec(n));
}

/// The summary table lists every task once, in order: after the header,
/// line `i + 1` is the row of task `i`, and the rule and footer follow the
/// last task.
pub proof fn lemma_summary_lists_every_task(
    reports: Seq<TaskReport>,
    throughput: u32,
    avg_flow: Option<Seq<char>>,
    ftd_percent: u32,
)
    ensures
        summary_table_lines(reports, throughput, avg_flow, ftd_percent).len() == reports.len() + 3,
        forall|i: int|
            0 <= i < reports.len() ==> #[trigger] summary_table_lines(
                reports,
                throughput,
                avg_flow,
                ftd_percent,
            )[i + 1] == done_row_text(reports[i]),
{
    lemma_one_row_per_task(reports, Seq::empty());
}

} // verus!
