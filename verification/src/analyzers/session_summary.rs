//! The proxy metrics of one session, computed from the entries of its log.

use vstd::prelude::*;

use crate::domain::tool_stats::{
    any_text_matches, count_looping_paths, count_reads_before_edit, is_edit_tool, looping_paths,
    reads_before_edit, some_text_matches, sorted_distinct, string_views, strictly_sorted,
};
use crate::domain::metrics::{BUILD_PATTERN, LINT_PATTERN, TEST_PATTERN, TYPECHECK_PATTERN};
use crate::json::{json_string_field, json_text_member};
use crate::models::{opt_text, LogEntry};
use crate::text::str_eq;
use crate::time::{now_formatted, rfc3339_span, rfc3339_span_ms};

verus! {

/// The entries behind a sequence of references.
pub open spec fn entries_of(calls: Seq<&LogEntry>) -> Seq<LogEntry> {
    calls.map_values(|e: &LogEntry| *e)
}

/// The name of the tool an entry used; empty when it used none.
pub open spec fn entry_tool_name(e: LogEntry) -> Seq<char> {
    match e.tool {
        Some(t) => t.name@,
        None => Seq::empty(),
    }
}

/// The text member `key` of an entry's tool input.
pub open spec fn entry_member(e: LogEntry, key: Seq<char>) -> Option<Seq<char>> {
    match e.tool {
        Some(t) => match opt_text(t.input) {
            Some(i) => json_text_member(i, key),
            None => None,
        },
        None => None,
    }
}

/// The command of a shell entry, empty when its input names none.
pub open spec fn entry_command(e: LogEntry) -> Seq<char> {
    match entry_member(e, "command"@) {
        Some(c) => c,
        None => Seq::empty(),
    }
}

/// The entries that record a tool call, in order.
pub open spec fn tool_entries(entries: Seq<LogEntry>) -> Seq<LogEntry>
    decreases entries.len(),
{
    if entries.len() == 0 {
        Seq::empty()
    } else {
        let rest = tool_entries(entries.drop_last());
        if entries.last().tool is Some {
            rest.push(entries.last())
        } else {
            rest
        }
    }
}

/// The tool names of the calls, in order.
pub open spec fn call_names(calls: Seq<LogEntry>) -> Seq<Seq<char>> {
    calls.map_values(|e: LogEntry| entry_tool_name(e))
}

/// The commands of the shell calls, in order.
pub open spec fn call_commands(calls: Seq<LogEntry>) -> Seq<Seq<char>>
    decreases calls.len(),
{
    if calls.len() == 0 {
        Seq::empty()
    } else {
        let rest = call_commands(calls.drop_last());
        if entry_tool_name(calls.last()) == "Bash"@ {
            rest.push(entry_command(calls.last()))
        } else {
            rest
        }
    }
}

/// The paths named by the calls whose tool passes `select`, in order.
pub open spec fn call_paths(calls: Seq<LogEntry>, select: spec_fn(Seq<char>) -> bool) -> Seq<
    Seq<char>,
>
    decreases calls.len(),
{
    if calls.len() == 0 {
        Seq::empty()
    } else {
        let rest = call_paths(calls.drop_last(), select);
        let e = calls.last();
        if select(entry_tool_name(e)) && entry_member(e, "file_path"@) is Some {
            rest.push(entry_member(e, "file_path"@)->0)
        } else {
            rest
        }
    }
}

/// Paths of `Edit` calls.
pub open spec fn call_edited_paths(calls: Seq<LogEntry>) -> Seq<Seq<char>> {
    call_paths(calls, |n: Seq<char>| n == "Edit"@)
}

/// Paths of `Edit` and `Write` calls.
pub open spec fn call_written_paths(calls: Seq<LogEntry>) -> Seq<Seq<char>> {
    call_paths(calls, |n: Seq<char>| is_edit_tool(n))
}

/// The time from the first entry to the last: zero for fewer than two
/// entries or when either time stamp does not parse.
pub open spec fn log_duration(entries: Seq<LogEntry>) -> i64 {
    if entries.len() <= 1 {
        0
    } else {
        match rfc3339_span_ms(entries[0].timestamp@, entries.last().timestamp@) {
            Some(d) => d,
            None => 0,
        }
    }
}

/// Whether an entry is a shell call, and whether it failed.
pub open spec fn shell_flags(e: LogEntry) -> (bool, bool) {
    match e.tool {
        Some(t) => if t.name@ == "Bash"@ {
            (true, t.failed == Some(true))
        } else {
            (false, false)
        },
        None => (false, false),
    }
}

/// How many entries are shell calls, and how many of those failed.
pub open spec fn shell_counts(entries: Seq<LogEntry>) -> (nat, nat)
    decreases entries.len(),
{
    if entries.len() == 0 {
        (0, 0)
    } else {
        let (calls, failed) = shell_counts(entries.drop_last());
        let (is_shell, is_failed) = shell_flags(entries.last());
        (calls + (if is_shell {
            1nat
        } else {
            0nat
        }), failed + (if is_failed {
            1nat
        } else {
            0nat
        }))
    }
}

/// The metrics of a session in their mathematical form.
pub struct SessionSummaryView {
    pub read_before_edit_ratio: u32,
    pub doom_loop_count: u32,
    pub test_invoked: bool,
    pub build_invoked: bool,
    pub lint_invoked: bool,
    pub typecheck_invoked: bool,
    pub tool_call_count: u32,
    pub session_duration_ms: i64,
    pub edit_files: Seq<Seq<char>>,
    pub bash_call_count: u32,
    pub bash_failure_count: u32,
}

/// The metrics of a session. The share of failed shell calls is kept as
/// its two counts.
#[derive(Debug, Clone, PartialEq, Eq)]
pub struct SessionSummary {
    pub read_before_edit_ratio: u32,
    pub doom_loop_count: u32,
    pub test_invoked: bool,
    pub build_invoked: bool,
    pub lint_invoked: bool,
    pub typecheck_invoked: bool,
    pub tool_call_count: u32,
    pub session_duration_ms: i64,
    pub edit_files: Vec<String>,
    pub bash_call_count: u32,
    pub bash_failure_count: u32,
}

impl View for SessionSummary {
    type V = SessionSummaryView;

    open spec fn view(&self) -> SessionSummaryView {
        SessionSummaryView {
            read_before_edit_ratio: self.read_before_edit_ratio,
            doom_loop_count: self.doom_loop_count,
            test_invoked: self.test_invoked,
            build_invoked: self.build_invoked,
            lint_invoked: self.lint_invoked,
            typecheck_invoked: self.typecheck_invoked,
            tool_call_count: self.tool_call_count,
            session_duration_ms: self.session_duration_ms,
            edit_files: string_views(self.edit_files@),
            bash_call_count: self.bash_call_count,
            bash_failure_count: self.bash_failure_count,
        }
    }
}

/// The metrics of a session stamped with the time they were computed.
#[derive(Debug, Clone, PartialEq, Eq)]
pub struct SessionSummaryEntry {
    pub timestamp: String,
    pub session_id: String,
    pub project: String,
    pub metrics: SessionSummary,
}

/// What the metrics of the log `entries` are.
pub open spec fn summary_of(entries: Seq<LogEntry>) -> SessionSummaryView {
    let calls = tool_entries(entries);
    SessionSummaryView {
        read_before_edit_ratio: reads_before_edit(call_names(calls)) as u32,
        doom_loop_count: looping_paths(call_edited_paths(calls)).len() as u32,
        test_invoked: some_text_matches(call_commands(calls), TEST_PATTERN@),
        build_invoked: some_text_matches(call_commands(calls), BUILD_PATTERN@),
        lint_invoked: some_text_matches(call_commands(calls), LINT_PATTERN@),
        typecheck_invoked: some_text_matches(call_commands(calls), TYPECHECK_PATTERN@),
        tool_call_count: calls.len() as u32,
        session_duration_ms: log_duration(entries),
        edit_files: Seq::empty(),
        bash_call_count: shell_counts(entries).0 as u32,
        bash_failure_count: shell_counts(entries).1 as u32,
    }
}

/// The name of the tool an entry used; empty when it used none.
fn tool_name(entry: &LogEntry) -> (r: &str)
    ensures
        r@ == entry_tool_name(*entry),
{
    match &entry.tool {
        Some(t) => t.name.as_str(),
        None => {
            proof {
                reveal_strlit("");
            }
            ""
        },
    }
}

/// The text member `key` of an entry's tool input.
fn input_member(entry: &LogEntry, key: &str) -> (r: Option<String>)
    ensures
        match r {
            Some(s) => entry_member(*entry, key@) == Some(s@),
            None => entry_member(*entry, key@) is None,
        },
{
    match &entry.tool {
        Some(t) => match &t.input {
            Some(i) => json_string_field(i.as_str(), key),
            None => None,
        },
        None => None,
    }
}

/// The command of a shell entry, empty when its input names none.
fn bash_command(entry: &LogEntry) -> (r: String)
    ensures
        r@ == entry_command(*entry),
{
    match input_member(entry, "command") {
        Some(c) => c,
        None => String::new(),
    }
}

fn names_of(calls: &[&LogEntry]) -> (r: Vec<String>)
    ensures
        string_views(r@) == call_names(entries_of(calls@)),
{
    let ghost cs = entries_of(calls@);
    let mut r: Vec<String> = Vec::new();
    let mut i: usize = 0;
    while i < calls.len()
        invariant
            i <= calls.len(),
            cs == entries_of(calls@),
            string_views(r@) =~= call_names(cs).take(i as int),
        decreases calls.len() - i,
    {
        let ghost before = r@;
        r.push(tool_name(calls[i]).to_owned());
        assert(string_views(r@) =~= string_views(before).push(entry_tool_name(cs[i as int])));
        i += 1;
    }
    assert(call_names(cs).take(i as int) =~= call_names(cs));
    r
}

/// Reading calls before the first editing call; all of them when nothing
/// is edited.
pub fn calc_read_before_edit(tool_calls: &[&LogEntry]) -> (r: u32)
    ensures
        r == reads_before_edit(call_names(entries_of(tool_calls@))) as u32,
{
    let names = names_of(tool_calls);
    let n = count_reads_before_edit(&names);
    #[verifier::truncate]
    (n as u32)
}

fn paths_of(calls: &[&LogEntry], also_write: bool) -> (r: Vec<String>)
    ensures
        also_write ==> string_views(r@) == call_written_paths(entries_of(calls@)),
        !also_write ==> string_views(r@) == call_edited_paths(entries_of(calls@)),
{
    let ghost cs = entries_of(calls@);
    let ghost select = if also_write {
        |n: Seq<char>| is_edit_tool(n)
    } else {
        |n: Seq<char>| n == "Edit"@
    };
    let mut r: Vec<String> = Vec::new();
    let mut i: usize = 0;
    assert(cs.take(0) =~= Seq::<LogEntry>::empty());
    while i < calls.len()
        invariant
            i <= calls.len(),
            cs == entries_of(calls@),
            select == (if also_write {
                |n: Seq<char>| is_edit_tool(n)
            } else {
                |n: Seq<char>| n == "Edit"@
            }),
            string_views(r@) =~= call_paths(cs.take(i as int), select),
        decreases calls.len() - i,
    {
        let e = calls[i];
        let name = tool_name(e);
        let chosen = if also_write {
            str_eq(name, "Edit") || str_eq(name, "Write")
        } else {
            str_eq(name, "Edit")
        };
        assert(cs.take(i + 1).drop_last() =~= cs.take(i as int));
        assert(cs.take(i + 1).last() == *e);
        if chosen {
            let ghost before = r@;
            match input_member(e, "file_path") {
                Some(p) => {
                    r.push(p);
                    assert(string_views(r@) =~= string_views(before).push(
                        entry_member(*e, "file_path"@)->0,
                    ));
                },
                None => {},
            }
        }
        i += 1;
    }
    assert(cs.take(i as int) =~= cs);
    r
}

/// Files edited at least five times, counted once each.
pub fn calc_doom_loop_count(tool_calls: &[&LogEntry]) -> (r: u32)
    ensures
        r == looping_paths(call_edited_paths(entries_of(tool_calls@))).len() as u32,
{
    let paths = paths_of(tool_calls, false);
    let n = count_looping_paths(&paths);
    #[verifier::truncate]
    (n as u32)
}

fn commands_of(calls: &[&LogEntry]) -> (r: Vec<String>)
    ensures
        string_views(r@) == call_commands(entries_of(calls@)),
{
    let ghost cs = entries_of(calls@);
    let mut r: Vec<String> = Vec::new();
    let mut i: usize = 0;
    assert(cs.take(0) =~= Seq::<LogEntry>::empty());
    while i < calls.len()
        invariant
            i <= calls.len(),
            cs == entries_of(calls@),
            string_views(r@) =~= call_commands(cs.take(i as int)),
        decreases calls.len() - i,
    {
        let e = calls[i];
        assert(cs.take(i + 1).drop_last() =~= cs.take(i as int));
        assert(cs.take(i + 1).last() == *e);
        if str_eq(tool_name(e), "Bash") {
            let ghost before = r@;
            r.push(bash_command(e));
            assert(string_views(r@) =~= string_views(before).push(entry_command(*e)));
        }
        i += 1;
    }
    assert(cs.take(i as int) =~= cs);
    r
}

/// Whether some shell call ran a command that `pattern` matches.
pub fn calc_invoked(tool_calls: &[&LogEntry], pattern: &str) -> (r: bool)
    ensures
        r == some_text_matches(call_commands(entries_of(tool_calls@)), pattern@),
{
    let commands = commands_of(tool_calls);
    any_text_matches(&commands, pattern)
}

/// The time from the first entry to the last, in milliseconds; zero for
/// fewer than two entries or when a time stamp does not parse.
pub fn calc_session_duration(entries: &[LogEntry]) -> (r: i64)
    ensures
        r == log_duration(entries@),
{
    if entries.len() <= 1 {
        return 0;
    }
    let first = entries[0].timestamp.as_str();
    let last = entries[entries.len() - 1].timestamp.as_str();
    match rfc3339_span(first, last) {
        Some(d) => d,
        None => 0,
    }
}

/// The files edited or written, each once, in increasing order.
pub fn calc_edit_files(tool_calls: &[&LogEntry]) -> (r: Vec<String>)
    ensures
        strictly_sorted(string_views(r@)),
        string_views(r@).to_set() == call_written_paths(entries_of(tool_calls@)).to_set(),
{
    let paths = paths_of(tool_calls, true);
    sorted_distinct(&paths)
}

/// How many entries are shell calls, and how many of those failed.
pub fn calc_bash_counts(entries: &[LogEntry]) -> (r: (u32, u32))
    ensures
        r.0 == shell_counts(entries@).0 as u32,
        r.1 == shell_counts(entries@).1 as u32,
{
    let mut calls: usize = 0;
    let mut failed: usize = 0;
    let mut i: usize = 0;
    assert(entries@.take(0) =~= Seq::<LogEntry>::empty());
    while i < entries.len()
        invariant
            i <= entries.len(),
            failed <= calls <= i,
            (calls as nat, failed as nat) == shell_counts(entries@.take(i as int)),
        decreases entries.len() - i,
    {
        assert(entries@.take(i + 1).drop_last() =~= entries@.take(i as int));
        assert(entries@.take(i + 1).last() == entries@[i as int]);
        match &entries[i].tool {
            Some(t) => {
                if str_eq(t.name.as_str(), "Bash") {
                    calls += 1;
                    if t.failed == Some(true) {
                        failed += 1;
                    }
                }
            },
            None => {},
        }
        i += 1;
    }
    assert(entries@.take(i as int) =~= entries@);
    (#[verifier::truncate]
    (calls as u32), #[verifier::truncate]
    (failed as u32))
}

/// The entries that record a tool call.
fn tool_calls_of(entries: &[LogEntry]) -> (r: Vec<&LogEntry>)
    ensures
        entries_of(r@) == tool_entries(entries@),
{
    let mut r: Vec<&LogEntry> = Vec::new();
    let mut i: usize = 0;
    assert(entries@.take(0) =~= Seq::<LogEntry>::empty());
    while i < entries.len()
        invariant
            i <= entries.len(),
            entries_of(r@) =~= tool_entries(entries@.take(i as int)),
        decreases entries.len() - i,
    {
        assert(entries@.take(i + 1).drop_last() =~= entries@.take(i as int));
        assert(entries@.take(i + 1).last() == entries@[i as int]);
        if entries[i].tool.is_some() {
            let ghost before = r@;
            r.push(&entries[i]);
            assert(entries_of(r@) =~= entries_of(before).push(entries@[i as int]));
        }
        i += 1;
    }
    assert(entries@.take(i as int) =~= entries@);
    r
}

/// Computes the metrics of the log `entries` of a session and stamps them
/// with `timestamp`.
pub fn compute_metrics_at(
    entries: &[LogEntry],
    session_id: &str,
    project: &str,
    timestamp: String,
) -> (r: SessionSummaryEntry)
    ensures
        r.timestamp@ == timestamp@,
        r.session_id@ == session_id@,
        r.project@ == project@,
        (SessionSummaryView { edit_files: Seq::empty(), ..r.metrics@ }) == summary_of(entries@),
        strictly_sorted(r.metrics@.edit_files),
        r.metrics@.edit_files.to_set() == call_written_paths(tool_entries(entries@)).to_set(),
{
    let calls = tool_calls_of(entries);
    let counts = calc_bash_counts(entries);
    let metrics = SessionSummary {
        read_before_edit_ratio: calc_read_before_edit(calls.as_slice()),
        doom_loop_count: calc_doom_loop_count(calls.as_slice()),
        test_invoked: calc_invoked(calls.as_slice(), TEST_PATTERN),
        build_invoked: calc_invoked(calls.as_slice(), BUILD_PATTERN),
        lint_invoked: calc_invoked(calls.as_slice(), LINT_PATTERN),
        typecheck_invoked: calc_invoked(calls.as_slice(), TYPECHECK_PATTERN),
        tool_call_count: #[verifier::truncate]
        (calls.len() as u32),
        session_duration_ms: calc_session_duration(entries),
        edit_files: calc_edit_files(calls.as_slice()),
        bash_call_count: counts.0,
        bash_failure_count: counts.1,
    };
    SessionSummaryEntry {
        timestamp,
        session_id: session_id.to_owned(),
        project: project.to_owned(),
        metrics,
    }
}

/// Computes the metrics of the log `entries` of a session, stamped with the
/// current time.
pub fn compute_metrics(entries: &[LogEntry], session_id: &str, project: &str) -> (r:
    SessionSummaryEntry)
    ensures
        r.session_id@ == session_id@,
        r.project@ == project@,
        (SessionSummaryView { edit_files: Seq::empty(), ..r.metrics@ }) == summary_of(entries@),
        strictly_sorted(r.metrics@.edit_files),
        r.metrics@.edit_files.to_set() == call_written_paths(tool_entries(entries@)).to_set(),
{
    compute_metrics_at(entries, session_id, project, now_formatted("%Y-%m-%dT%H:%M:%S%.3fZ"))
}

/// Whether an entry records a call of the `Bash` tool.
pub open spec fn is_shell_call(e: LogEntry) -> bool {
    e.tool matches Some(t) && t.name@ == "Bash"@
}

/// Whether an entry records a call of the `Bash` tool that failed.
pub open spec fn is_failed_shell_call(e: LogEntry) -> bool {
    e.tool matches Some(t) && t.name@ == "Bash"@ && t.failed == Some(true)
}

/// Only shell calls count: an entry that is not a call of the `Bash` tool,
/// failed or not, changes neither the number of shell calls nor the number
/// of failed ones; a shell call adds one call, and one failure exactly
/// when it failed.
pub proof fn lemma_only_shell_calls_count(entries: Seq<LogEntry>, e: LogEntry)
    ensures
        !is_shell_call(e) ==> shell_counts(entries.push(e)) == shell_counts(entries),
        is_shell_call(e) ==> shell_counts(entries.push(e)) == (
            shell_counts(entries).0 + 1,
            shell_counts(entries).1 + (if is_failed_shell_call(e) {
                1nat
            } else {
                0nat
            }),
        ),
{
    assert(entries.push(e).drop_last() =~= entries);
}

/// Every failed shell call is a shell call: the failures never outnumber
/// the calls.
pub proof fn lemma_shell_failures_within_calls(entries: Seq<LogEntry>)
    ensures
        shell_counts(entries).1 <= shell_counts(entries).0,
    decreases entries.len(),
{
    if entries.len() > 0 {
        lemma_shell_failures_within_calls(entries.drop_last());
        assert(entries.drop_last().push(entries.last()) =~= entries);
        lemma_only_shell_calls_count(entries.drop_last(), entries.last());
    }
}

} // verus!
