//! The proxy metrics of one session, computed from its tool calls and
//! failed tool calls.

use vstd::prelude::*;

use super::log::{ToolFailure, ToolFailureView, ToolUse, ToolUseView};
use super::tool_stats::{
    count_looping_paths, count_reads_before_edit, is_edit_tool, looping_paths, reads_before_edit,
    some_text_matches, sorted_distinct, string_views, strictly_sorted, any_text_matches,
};
use super::value::{Ms, SessionId};
use crate::json::{json_string_field, json_text_member};
use crate::text::str_eq;

verus! {

/// Shell commands that run tests.
pub const TEST_PATTERN: &'static str = "(?i)\\b(test|vitest|playwright|jest|pytest|mocha|karma)\\b";

/// Shell commands that build.
pub const BUILD_PATTERN: &'static str = "(?i)\\b(build|tsc|webpack|vite build|esbuild|rollup)\\b";

/// Shell commands that lint.
pub const LINT_PATTERN: &'static str = "(?i)\\b(lint|eslint|prettier|ruff|biome)\\b";

/// Shell commands that type-check.
pub const TYPECHECK_PATTERN: &'static str = "(?i)\\b(tsc\\s+--noEmit|mypy|pyright)\\b";

/// The command a shell call ran: the `command` member of its input, or the
/// empty text when there is none.
pub open spec fn command_of(u: ToolUseView) -> Seq<char> {
    match json_text_member(u.tool_input, "command"@) {
        Some(c) => c,
        None => Seq::empty(),
    }
}

/// The file a call worked on: the `file_path` member of its input.
pub open spec fn path_of(u: ToolUseView) -> Option<Seq<char>> {
    json_text_member(u.tool_input, "file_path"@)
}

/// The tool names of the calls, in order.
pub open spec fn use_names(uses: Seq<ToolUse>) -> Seq<Seq<char>> {
    uses.map_values(|u: ToolUse| u@.tool_name)
}

/// The commands of the shell calls, in order.
pub open spec fn shell_commands(uses: Seq<ToolUse>) -> Seq<Seq<char>>
    decreases uses.len(),
{
    if uses.len() == 0 {
        Seq::empty()
    } else {
        let rest = shell_commands(uses.drop_last());
        if uses.last()@.tool_name == "Bash"@ {
            rest.push(command_of(uses.last()@))
        } else {
            rest
        }
    }
}

/// The paths named by the calls that pass `select`, in order (calls
/// without a path are skipped).
pub open spec fn selected_paths(uses: Seq<ToolUse>, select: spec_fn(Seq<char>) -> bool) -> Seq<
    Seq<char>,
>
    decreases uses.len(),
{
    if uses.len() == 0 {
        Seq::empty()
    } else {
        let rest = selected_paths(uses.drop_last(), select);
        let u = uses.last()@;
        if select(u.tool_name) && path_of(u) is Some {
            rest.push(path_of(u)->0)
        } else {
            rest
        }
    }
}

/// Paths of `Edit` calls.
pub open spec fn edited_paths(uses: Seq<ToolUse>) -> Seq<Seq<char>> {
    selected_paths(uses, |n: Seq<char>| n == "Edit"@)
}

/// Paths of `Edit` and `Write` calls.
pub open spec fn written_paths(uses: Seq<ToolUse>) -> Seq<Seq<char>> {
    selected_paths(uses, |n: Seq<char>| is_edit_tool(n))
}

/// How many of the calls used the shell.
pub open spec fn shell_use_count(uses: Seq<ToolUse>) -> nat
    decreases uses.len(),
{
    if uses.len() == 0 {
        0
    } else {
        shell_use_count(uses.drop_last()) + (if uses.last()@.tool_name == "Bash"@ {
            1nat
        } else {
            0nat
        })
    }
}

/// How many of the failed calls used the shell.
pub open spec fn shell_failure_count(fails: Seq<ToolFailure>) -> nat
    decreases fails.len(),
{
    if fails.len() == 0 {
        0
    } else {
        shell_failure_count(fails.drop_last()) + (if fails.last()@.tool_name == "Bash"@ {
            1nat
        } else {
            0nat
        })
    }
}

/// The time from the first call to the last, zero for fewer than two calls.
pub open spec fn duration_of(uses: Seq<ToolUse>) -> int {
    if uses.len() <= 1 {
        0
    } else {
        uses.last()@.timestamp - uses[0]@.timestamp
    }
}

/// The session's metrics in their mathematical form.
pub struct SessionMetricsView {
    pub session_id: Seq<char>,
    pub read_before_edit_ratio: u32,
    pub doom_loop_count: u32,
    pub test_invoked: bool,
    pub build_invoked: bool,
    pub lint_invoked: bool,
    pub typecheck_invoked: bool,
    pub tool_call_count: u32,
    pub session_duration: i64,
    pub edit_files: Seq<Seq<char>>,
    pub bash_call_count: u32,
    pub bash_failure_count: u32,
}

/// The proxy metrics of one session. The share of failed shell calls is
/// kept as its two counts.
#[derive(Debug, Clone, PartialEq)]
pub struct SessionMetrics {
    session_id: SessionId,
    read_before_edit_ratio: u32,
    doom_loop_count: u32,
    test_invoked: bool,
    build_invoked: bool,
    lint_invoked: bool,
    typecheck_invoked: bool,
    tool_call_count: u32,
    session_duration: Ms,
    edit_files: Vec<String>,
    bash_call_count: u32,
    bash_failure_count: u32,
}

impl View for SessionMetrics {
    type V = SessionMetricsView;

    closed spec fn view(&self) -> SessionMetricsView {
        SessionMetricsView {
            session_id: self.session_id@,
            read_before_edit_ratio: self.read_before_edit_ratio,
            doom_loop_count: self.doom_loop_count,
            test_invoked: self.test_invoked,
            build_invoked: self.build_invoked,
            lint_invoked: self.lint_invoked,
            typecheck_invoked: self.typecheck_invoked,
            tool_call_count: self.tool_call_count,
            session_duration: self.session_duration@,
            edit_files: string_views(self.edit_files@),
            bash_call_count: self.bash_call_count,
            bash_failure_count: self.bash_failure_count,
        }
    }
}

impl SessionMetrics {
    pub fn session_id(&self) -> (r: &SessionId)
        ensures
            r@ == self@.session_id,
    {
        &self.session_id
    }

    pub fn read_before_edit_ratio(&self) -> (r: u32)
        ensures
            r == self@.read_before_edit_ratio,
    {
        self.read_before_edit_ratio
    }

    pub fn doom_loop_count(&self) -> (r: u32)
        ensures
            r == self@.doom_loop_count,
    {
        self.doom_loop_count
    }

    pub fn test_invoked(&self) -> (r: bool)
        ensures
            r == self@.test_invoked,
    {
        self.test_invoked
    }

    pub fn build_invoked(&self) -> (r: bool)
        ensures
            r == self@.build_invoked,
    {
        self.build_invoked
    }

    pub fn lint_invoked(&self) -> (r: bool)
        ensures
            r == self@.lint_invoked,
    {
        self.lint_invoked
    }

    pub fn typecheck_invoked(&self) -> (r: bool)
        ensures
            r == self@.typecheck_invoked,
    {
        self.typecheck_invoked
    }

    pub fn tool_call_count(&self) -> (r: u32)
        ensures
            r == self@.tool_call_count,
    {
        self.tool_call_count
    }

    pub fn session_duration(&self) -> (r: Ms)
        ensures
            r@ == self@.session_duration,
    {
        self.session_duration
    }

    pub fn edit_files(&self) -> (r: &[String])
        ensures
            string_views(r@) == self@.edit_files,
    {
        self.edit_files.as_slice()
    }

    /// How many calls used the shell.
    pub fn bash_call_count(&self) -> (r: u32)
        ensures
            r == self@.bash_call_count,
    {
        self.bash_call_count
    }

    /// How many failed calls used the shell.
    pub fn bash_failure_count(&self) -> (r: u32)
        ensures
            r == self@.bash_failure_count,
    {
        self.bash_failure_count
    }
}

fn tool_names(tool_uses: &[ToolUse]) -> (r: Vec<String>)
    ensures
        string_views(r@) == use_names(tool_uses@),
{
    let mut r: Vec<String> = Vec::new();
    let mut i: usize = 0;
    while i < tool_uses.len()
        invariant
            i <= tool_uses.len(),
            string_views(r@) =~= use_names(tool_uses@).take(i as int),
        decreases tool_uses.len() - i,
    {
        let ghost before = r@;
        r.push(tool_uses[i].tool_name().to_owned());
        assert(string_views(r@) =~= string_views(before).push(tool_uses@[i as int]@.tool_name));
        i += 1;
    }
    assert(use_names(tool_uses@).take(i as int) =~= use_names(tool_uses@));
    r
}

/// The file a call worked on, read from its JSON input.
pub fn file_path(tool_use: &ToolUse) -> (r: Option<String>)
    ensures
        match r {
            Some(p) => path_of(tool_use@) == Some(p@),
            None => path_of(tool_use@) is None,
        },
{
    json_string_field(tool_use.tool_input(), "file_path")
}

/// The command a shell call ran, read from its JSON input (empty when the
/// input has none).
pub fn bash_command(tool_use: &ToolUse) -> (r: String)
    ensures
        r@ == command_of(tool_use@),
{
    match json_string_field(tool_use.tool_input(), "command") {
        Some(c) => c,
        None => String::new(),
    }
}

/// Reading calls (`Read`, `Grep`, `Glob`) before the first editing call
/// (`Edit`, `Write`); all of them when nothing is edited.
pub fn calc_read_before_edit(tool_uses: &[ToolUse]) -> (r: u32)
    ensures
        r == reads_before_edit(use_names(tool_uses@)) as u32,
{
    let names = tool_names(tool_uses);
    let n = count_reads_before_edit(&names);
    #[verifier::truncate]
    (n as u32)
}

/// Paths of the calls to `Edit` (when `also_write` is false) or to `Edit`
/// and `Write`.
fn paths_of(tool_uses: &[ToolUse], also_write: bool) -> (r: Vec<String>)
    ensures
        also_write ==> string_views(r@) == written_paths(tool_uses@),
        !also_write ==> string_views(r@) == edited_paths(tool_uses@),
{
    let mut r: Vec<String> = Vec::new();
    let mut i: usize = 0;
    let ghost select = if also_write {
        |n: Seq<char>| is_edit_tool(n)
    } else {
        |n: Seq<char>| n == "Edit"@
    };
    assert(tool_uses@.take(0) =~= Seq::<ToolUse>::empty());
    while i < tool_uses.len()
        invariant
            i <= tool_uses.len(),
            select == (if also_write {
                |n: Seq<char>| is_edit_tool(n)
            } else {
                |n: Seq<char>| n == "Edit"@
            }),
            string_views(r@) =~= selected_paths(tool_uses@.take(i as int), select),
        decreases tool_uses.len() - i,
    {
        let u = &tool_uses[i];
        let name = u.tool_name();
        let chosen = if also_write {
            str_eq(name, "Edit") || str_eq(name, "Write")
        } else {
            str_eq(name, "Edit")
        };
        assert(tool_uses@.take(i + 1).drop_last() =~= tool_uses@.take(i as int));
        assert(tool_uses@.take(i + 1).last() == *u);
        if chosen {
            let ghost before = r@;
            match file_path(u) {
                Some(p) => {
                    r.push(p);
                    assert(string_views(r@) =~= string_views(before).push(path_of(u@)->0));
                },
                None => {},
            }
        }
        i += 1;
    }
    assert(tool_uses@.take(i as int) =~= tool_uses@);
    r
}

/// Files edited at least five times, counted once each.
pub fn calc_doom_loop_count(tool_uses: &[ToolUse]) -> (r: u32)
    ensures
        r == looping_paths(edited_paths(tool_uses@)).len() as u32,
{
    let paths = paths_of(tool_uses, false);
    let n = count_looping_paths(&paths);
    #[verifier::truncate]
    (n as u32)
}

/// The commands of the shell calls.
fn shell_commands_of(tool_uses: &[ToolUse]) -> (r: Vec<String>)
    ensures
        string_views(r@) == shell_commands(tool_uses@),
{
    let mut r: Vec<String> = Vec::new();
    let mut i: usize = 0;
    assert(tool_uses@.take(0) =~= Seq::<ToolUse>::empty());
    while i < tool_uses.len()
        invariant
            i <= tool_uses.len(),
            string_views(r@) =~= shell_commands(tool_uses@.take(i as int)),
        decreases tool_uses.len() - i,
    {
        let u = &tool_uses[i];
        assert(tool_uses@.take(i + 1).drop_last() =~= tool_uses@.take(i as int));
        assert(tool_uses@.take(i + 1).last() == *u);
        if str_eq(u.tool_name(), "Bash") {
            let ghost before = r@;
            r.push(bash_command(u));
            assert(string_views(r@) =~= string_views(before).push(command_of(u@)));
        }
        i += 1;
    }
    assert(tool_uses@.take(i as int) =~= tool_uses@);
    r
}

/// Whether some shell call ran a command that `pattern` matches.
pub fn calc_invoked(tool_uses: &[ToolUse], pattern: &str) -> (r: bool)
    ensures
        r == some_text_matches(shell_commands(tool_uses@), pattern@),
{
    let commands = shell_commands_of(tool_uses);
    any_text_matches(&commands, pattern)
}

/// The time between the first and the last call; zero for fewer than two
/// calls.
pub fn calc_session_duration(tool_uses: &[ToolUse]) -> (r: Ms)
    requires
        tool_uses.len() > 1 ==> i64::MIN <= duration_of(tool_uses@) <= i64::MAX,
    ensures
        r@ == duration_of(tool_uses@),
{
    if tool_uses.len() <= 1 {
        return Ms::zero();
    }
    let first = tool_uses[0].timestamp().value();
    let last = tool_uses[tool_uses.len() - 1].timestamp().value();
    Ms::new(last - first)
}

/// The files edited or written, each once, in increasing order.
pub fn calc_edit_files(tool_uses: &[ToolUse]) -> (r: Vec<String>)
    ensures
        strictly_sorted(string_views(r@)),
        string_views(r@).to_set() == written_paths(tool_uses@).to_set(),
{
    let paths = paths_of(tool_uses, true);
    sorted_distinct(&paths)
}

/// How many calls used the shell.
fn count_shell_uses(tool_uses: &[ToolUse]) -> (r: usize)
    ensures
        r == shell_use_count(tool_uses@),
{
    let mut n: usize = 0;
    let mut i: usize = 0;
    assert(tool_uses@.take(0) =~= Seq::<ToolUse>::empty());
    while i < tool_uses.len()
        invariant
            i <= tool_uses.len(),
            n <= i,
            n == shell_use_count(tool_uses@.take(i as int)),
        decreases tool_uses.len() - i,
    {
        assert(tool_uses@.take(i + 1).drop_last() =~= tool_uses@.take(i as int));
        assert(tool_uses@.take(i + 1).last() == tool_uses@[i as int]);
        if str_eq(tool_uses[i].tool_name(), "Bash") {
            n += 1;
        }
        i += 1;
    }
    assert(tool_uses@.take(i as int) =~= tool_uses@);
    n
}

/// How many failed calls used the shell.
fn count_shell_failures(tool_failures: &[ToolFailure]) -> (r: usize)
    ensures
        r == shell_failure_count(tool_failures@),
{
    let mut n: usize = 0;
    let mut i: usize = 0;
    assert(tool_failures@.take(0) =~= Seq::<ToolFailure>::empty());
    while i < tool_failures.len()
        invariant
            i <= tool_failures.len(),
            n <= i,
            n == shell_failure_count(tool_failures@.take(i as int)),
        decreases tool_failures.len() - i,
    {
        assert(tool_failures@.take(i + 1).drop_last() =~= tool_failures@.take(i as int));
        assert(tool_failures@.take(i + 1).last() == tool_failures@[i as int]);
        if str_eq(tool_failures[i].tool_name(), "Bash") {
            n += 1;
        }
        i += 1;
    }
    assert(tool_failures@.take(i as int) =~= tool_failures@);
    n
}

/// Computes every metric of a session from its calls and failed calls.
pub fn calculate(
    session_id: SessionId,
    tool_uses: &[ToolUse],
    tool_failures: &[ToolFailure],
) -> (r: SessionMetrics)
    requires
        tool_uses.len() > 1 ==> i64::MIN <= duration_of(tool_uses@) <= i64::MAX,
    ensures
        r@.session_id == session_id@,
        r@.read_before_edit_ratio == reads_before_edit(use_names(tool_uses@)) as u32,
        r@.doom_loop_count == looping_paths(edited_paths(tool_uses@)).len() as u32,
        r@.test_invoked == some_text_matches(shell_commands(tool_uses@), TEST_PATTERN@),
        r@.build_invoked == some_text_matches(shell_commands(tool_uses@), BUILD_PATTERN@),
        r@.lint_invoked == some_text_matches(shell_commands(tool_uses@), LINT_PATTERN@),
        r@.typecheck_invoked == some_text_matches(shell_commands(tool_uses@), TYPECHECK_PATTERN@),
        r@.tool_call_count == tool_uses.len() as u32,
        r@.session_duration == duration_of(tool_uses@),
        strictly_sorted(r@.edit_files),
        r@.edit_files.to_set() == written_paths(tool_uses@).to_set(),
        r@.bash_call_count == shell_use_count(tool_uses@) as u32,
        r@.bash_failure_count == shell_failure_count(tool_failures@) as u32,
{
    let calls = count_shell_uses(tool_uses);
    let failures = count_shell_failures(tool_failures);
    SessionMetrics {
        session_id,
        read_before_edit_ratio: calc_read_before_edit(tool_uses),
        doom_loop_count: calc_doom_loop_count(tool_uses),
        test_invoked: calc_invoked(tool_uses, TEST_PATTERN),
        build_invoked: calc_invoked(tool_uses, BUILD_PATTERN),
        lint_invoked: calc_invoked(tool_uses, LINT_PATTERN),
        typecheck_invoked: calc_invoked(tool_uses, TYPECHECK_PATTERN),
        tool_call_count: #[verifier::truncate]
        (tool_uses.len() as u32),
        session_duration: calc_session_duration(tool_uses),
        edit_files: calc_edit_files(tool_uses),
        bash_call_count: #[verifier::truncate]
        (calls as u32),
        bash_failure_count: #[verifier::truncate]
        (failures as u32),
    }
}

} // verus!
