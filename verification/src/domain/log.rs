//! Records collected by the coding-agent hooks: tool calls, failed tool
//! calls and system events, and the project name taken from a working
//! directory.

use vstd::prelude::*;

use super::value::{Ms, SessionId, Timestamp};
use crate::text::{chars_of, push_str, string_of};

verus! {

/// A tool call as the `PostToolUse` hook reports it.
pub struct ToolUseView {
    pub id: Seq<char>,
    pub session_id: Seq<char>,
    pub project: Seq<char>,
    pub project_path: Seq<char>,
    pub tool_name: Seq<char>,
    pub tool_input: Seq<char>,
    pub duration: i64,
    pub timestamp: i64,
}

/// One row of the tool-call log.
#[derive(Debug, Clone, PartialEq, Eq)]
pub struct ToolUse {
    id: String,
    session_id: SessionId,
    project: String,
    project_path: String,
    tool_name: String,
    tool_input: String,
    duration: Ms,
    timestamp: Timestamp,
}

impl View for ToolUse {
    type V = ToolUseView;

    closed spec fn view(&self) -> ToolUseView {
        ToolUseView {
            id: self.id@,
            session_id: self.session_id@,
            project: self.project@,
            project_path: self.project_path@,
            tool_name: self.tool_name@,
            tool_input: self.tool_input@,
            duration: self.duration@,
            timestamp: self.timestamp@,
        }
    }
}

/// `[session] name (id)`, the way a logged record is displayed.
pub open spec fn record_line(session: Seq<char>, name: Seq<char>, id: Seq<char>) -> Seq<char> {
    "["@ + session + "] "@ + name + " ("@ + id + ")"@
}

/// `[session] name FAILED (id)`, the way a failed call is displayed.
pub open spec fn failure_line(session: Seq<char>, name: Seq<char>, id: Seq<char>) -> Seq<char> {
    "["@ + session + "] "@ + name + " FAILED ("@ + id + ")"@
}

fn display_line(session: &str, name: &str, middle: &str, id: &str) -> (r: String)
    ensures
        r@ == "["@ + session@ + "] "@ + name@ + middle@ + id@ + ")"@,
{
    let mut v: Vec<char> = Vec::new();
    push_str(&mut v, "[");
    push_str(&mut v, session);
    push_str(&mut v, "] ");
    push_str(&mut v, name);
    push_str(&mut v, middle);
    push_str(&mut v, id);
    push_str(&mut v, ")");
    string_of(&v)
}

impl ToolUse {
    /// Assembles a record from its fields.
    pub fn new(
        id: String,
        session_id: SessionId,
        project: String,
        project_path: String,
        tool_name: String,
        tool_input: String,
        duration: Ms,
        timestamp: Timestamp,
    ) -> (r: ToolUse)
        ensures
            r@ == (ToolUseView {
                id: id@,
                session_id: session_id@,
                project: project@,
                project_path: project_path@,
                tool_name: tool_name@,
                tool_input: tool_input@,
                duration: duration@,
                timestamp: timestamp@,
            }),
    {
        ToolUse {
            id,
            session_id,
            project,
            project_path,
            tool_name,
            tool_input,
            duration,
            timestamp,
        }
    }

    pub fn id(&self) -> (r: &str)
        ensures
            r@ == self@.id,
    {
        self.id.as_str()
    }

    pub fn session_id(&self) -> (r: &SessionId)
        ensures
            r@ == self@.session_id,
    {
        &self.session_id
    }

    pub fn project(&self) -> (r: &str)
        ensures
            r@ == self@.project,
    {
        self.project.as_str()
    }

    pub fn project_path(&self) -> (r: &str)
        ensures
            r@ == self@.project_path,
    {
        self.project_path.as_str()
    }

    pub fn tool_name(&self) -> (r: &str)
        ensures
            r@ == self@.tool_name,
    {
        self.tool_name.as_str()
    }

    pub fn tool_input(&self) -> (r: &str)
        ensures
            r@ == self@.tool_input,
    {
        self.tool_input.as_str()
    }

    pub fn duration(&self) -> (r: Ms)
        ensures
            r@ == self@.duration,
    {
        self.duration
    }

    pub fn timestamp(&self) -> (r: Timestamp)
        ensures
            r@ == self@.timestamp,
    {
        self.timestamp
    }

    /// `[session] tool (id)`.
    pub fn to_string(&self) -> (r: String)
        ensures
            r@ == record_line(self@.session_id, self@.tool_name, self@.id),
    {
        display_line(self.session_id.as_str(), self.tool_name.as_str(), " (", self.id.as_str())
    }
}

/// A failed tool call as the `PostToolUseFailure` hook reports it.
pub struct ToolFailureView {
    pub id: Seq<char>,
    pub session_id: Seq<char>,
    pub project: Seq<char>,
    pub project_path: Seq<char>,
    pub tool_name: Seq<char>,
    pub error: Seq<char>,
    pub timestamp: i64,
}

/// One row of the failed-call log.
#[derive(Debug, Clone, PartialEq, Eq)]
pub struct ToolFailure {
    id: String,
    session_id: SessionId,
    project: String,
    project_path: String,
    tool_name: String,
    error: String,
    timestamp: Timestamp,
}

impl View for ToolFailure {
    type V = ToolFailureView;

    closed spec fn view(&self) -> ToolFailureView {
        ToolFailureView {
            id: self.id@,
            session_id: self.session_id@,
            project: self.project@,
            project_path: self.project_path@,
            tool_name: self.tool_name@,
            error: self.error@,
            timestamp: self.timestamp@,
        }
    }
}

impl ToolFailure {
    /// Assembles a record from its fields.
    pub fn new(
        id: String,
        session_id: SessionId,
        project: String,
        project_path: String,
        tool_name: String,
        error: String,
        timestamp: Timestamp,
    ) -> (r: ToolFailure)
        ensures
            r@ == (ToolFailureView {
                id: id@,
                session_id: session_id@,
                project: project@,
                project_path: project_path@,
                tool_name: tool_name@,
                error: error@,
                timestamp: timestamp@,
            }),
    {
        ToolFailure { id, session_id, project, project_path, tool_name, error, timestamp }
    }

    pub fn id(&self) -> (r: &str)
        ensures
            r@ == self@.id,
    {
        self.id.as_str()
    }

    pub fn session_id(&self) -> (r: &SessionId)
        ensures
            r@ == self@.session_id,
    {
        &self.session_id
    }

    pub fn project(&self) -> (r: &str)
        ensures
            r@ == self@.project,
    {
        self.project.as_str()
    }

    pub fn project_path(&self) -> (r: &str)
        ensures
            r@ == self@.project_path,
    {
        self.project_path.as_str()
    }

    pub fn tool_name(&self) -> (r: &str)
        ensures
            r@ == self@.tool_name,
    {
        self.tool_name.as_str()
    }

    pub fn error(&self) -> (r: &str)
        ensures
            r@ == self@.error,
    {
        self.error.as_str()
    }

    pub fn timestamp(&self) -> (r: Timestamp)
        ensures
            r@ == self@.timestamp,
    {
        self.timestamp
    }

    /// `[session] tool FAILED (id)`.
    pub fn to_string(&self) -> (r: String)
        ensures
            r@ == failure_line(self@.session_id, self@.tool_name, self@.id),
    {
        display_line(
            self.session_id.as_str(),
            self.tool_name.as_str(),
            " FAILED (",
            self.id.as_str(),
        )
    }
}

/// A notification or stop event as the hooks report it.
pub struct SystemEventView {
    pub id: Seq<char>,
    pub session_id: Seq<char>,
    pub project: Seq<char>,
    pub project_path: Seq<char>,
    pub event_type: Seq<char>,
    pub content: Seq<char>,
    pub timestamp: i64,
}

/// One row of the system-event log.
#[derive(Debug, Clone, PartialEq, Eq)]
pub struct SystemEvent {
    id: String,
    session_id: SessionId,
    project: String,
    project_path: String,
    event_type: String,
    content: String,
    timestamp: Timestamp,
}

impl View for SystemEvent {
    type V = SystemEventView;

    closed spec fn view(&self) -> SystemEventView {
        SystemEventView {
            id: self.id@,
            session_id: self.session_id@,
            project: self.project@,
            project_path: self.project_path@,
            event_type: self.event_type@,
            content: self.content@,
            timestamp: self.timestamp@,
        }
    }
}

impl SystemEvent {
    /// Assembles a record from its fields.
    pub fn new(
        id: String,
        session_id: SessionId,
        project: String,
        project_path: String,
        event_type: String,
        content: String,
        timestamp: Timestamp,
    ) -> (r: SystemEvent)
        ensures
            r@ == (SystemEventView {
                id: id@,
                session_id: session_id@,
                project: project@,
                project_path: project_path@,
                event_type: event_type@,
                content: content@,
                timestamp: timestamp@,
            }),
    {
        SystemEvent { id, session_id, project, project_path, event_type, content, timestamp }
    }

    pub fn id(&self) -> (r: &str)
        ensures
            r@ == self@.id,
    {
        self.id.as_str()
    }

    pub fn session_id(&self) -> (r: &SessionId)
        ensures
            r@ == self@.session_id,
    {
        &self.session_id
    }

    pub fn project(&self) -> (r: &str)
        ensures
            r@ == self@.project,
    {
        self.project.as_str()
    }

    pub fn project_path(&self) -> (r: &str)
        ensures
            r@ == self@.project_path,
    {
        self.project_path.as_str()
    }

    pub fn event_type(&self) -> (r: &str)
        ensures
            r@ == self@.event_type,
    {
        self.event_type.as_str()
    }

    pub fn content(&self) -> (r: &str)
        ensures
            r@ == self@.content,
    {
        self.content.as_str()
    }

    pub fn timestamp(&self) -> (r: Timestamp)
        ensures
            r@ == self@.timestamp,
    {
        self.timestamp
    }

    /// `[session] event-type (id)`.
    pub fn to_string(&self) -> (r: String)
        ensures
            r@ == record_line(self@.session_id, self@.event_type, self@.id),
    {
        display_line(self.session_id.as_str(), self.event_type.as_str(), " (", self.id.as_str())
    }
}

/// A path component that names something: neither empty (doubled or
/// trailing slashes) nor `.`.
pub open spec fn names_entry(seg: Seq<char>) -> bool {
    seg.len() > 0 && seg != seq!['.']
}

/// Reading a path left to right: the last naming component seen before the
/// final slash, and the component after it.
pub open spec fn component_scan(s: Seq<char>) -> (Option<Seq<char>>, Seq<char>)
    decreases s.len(),
{
    if s.len() == 0 {
        (None, Seq::empty())
    } else {
        let (last, cur) = component_scan(s.drop_last());
        if s.last() == '/' {
            (if names_entry(cur) {
                Some(cur)
            } else {
                last
            }, Seq::empty())
        } else {
            (last, cur.push(s.last()))
        }
    }
}

/// The last component of a path, ignoring empty and `.` components (what
/// `Path::components` yields last when it is a normal component, or `..`).
pub open spec fn last_component(s: Seq<char>) -> Option<Seq<char>> {
    let (last, cur) = component_scan(s);
    if names_entry(cur) {
        Some(cur)
    } else {
        last
    }
}

/// The project a working directory belongs to: its last component, or
/// `unknown` when there is none or it is `..`.
pub open spec fn project_of_cwd(cwd: Seq<char>) -> Seq<char> {
    match last_component(cwd) {
        Some(c) => if c == seq!['.', '.'] {
            "unknown"@
        } else {
            c
        },
        None => "unknown"@,
    }
}

fn is_naming(seg: &Vec<char>) -> (r: bool)
    ensures
        r == names_entry(seg@),
{
    if seg.len() == 0 {
        false
    } else if seg.len() == 1 && seg[0] == '.' {
        assert(seg@ =~= seq!['.']);
        false
    } else {
        assert(seg@.len() != 1 ==> seg@ != seq!['.']);
        true
    }
}

/// Takes the project name from a working directory: the path's last
/// component, or `unknown` for the root and other paths without one.
pub fn extract_project_from_cwd(cwd: &str) -> (r: String)
    ensures
        r@ == project_of_cwd(cwd@),
{
    let v = chars_of(cwd);
    let mut last: Option<Vec<char>> = None;
    let mut cur: Vec<char> = Vec::new();
    let mut i: usize = 0;
    assert(v@.take(0) =~= Seq::<char>::empty());
    while i < v.len()
        invariant
            i <= v.len(),
            component_scan(v@.take(i as int)) == (
                match last {
                    Some(l) => Some(l@),
                    None => None,
                },
                cur@,
            ),
        decreases v.len() - i,
    {
        let c = v[i];
        assert(v@.take(i + 1).drop_last() =~= v@.take(i as int));
        assert(v@.take(i + 1).last() == c);
        if c == '/' {
            if is_naming(&cur) {
                last = Some(cur);
            }
            cur = Vec::new();
        } else {
            cur.push(c);
        }
        i += 1;
    }
    assert(v@.take(i as int) =~= cwd@);
    let found = if is_naming(&cur) {
        Some(cur)
    } else {
        last
    };
    match found {
        Some(name) => {
            if name.len() == 2 && name[0] == '.' && name[1] == '.' {
                assert(name@ =~= seq!['.', '.']);
                "unknown".to_string()
            } else {
                assert(name@.len() != 2 ==> name@ != seq!['.', '.']);
                string_of(&name)
            }
        },
        None => "unknown".to_string(),
    }
}

proof fn lemma_scan_parts(s: Seq<char>)
    ensures
        !component_scan(s).1.contains('/'),
        component_scan(s).0 matches Some(c) ==> names_entry(c) && !c.contains('/'),
    decreases s.len(),
{
    if s.len() > 0 {
        lemma_scan_parts(s.drop_last());
        let (last, cur) = component_scan(s.drop_last());
        if s.last() != '/' {
            let n = cur.push(s.last());
            if n.contains('/') {
                let k = choose|k: int| 0 <= k < n.len() && n[k] == '/';
                if k < cur.len() {
                    assert(cur[k] == '/');
                }
            }
        }
        if s.last() == '/' {
            assert(!Seq::<char>::empty().contains('/'));
        }
    }
}

/// The project name taken from a working directory is never empty and
/// never holds a `/`: it is one component of the path, or `unknown`.
pub proof fn lemma_project_name_is_one_component(cwd: Seq<char>)
    ensures
        project_of_cwd(cwd).len() > 0,
        !project_of_cwd(cwd).contains('/'),
{
    reveal_strlit("unknown");
    lemma_scan_parts(cwd);
    let u = "unknown"@;
    assert(u.len() == 7);
    assert(!u.contains('/')) by {
        if u.contains('/') {
            let k = choose|k: int| 0 <= k < u.len() && u[k] == '/';
            assert(u[k] != '/');
        }
    }
}


/// Records a failed call reported by the hook: the project is taken from
/// the working directory, which is also kept as the project path.
pub fn failure_from_hook(
    id: String,
    session_id: &str,
    tool_name: String,
    error: String,
    cwd: String,
    timestamp: Timestamp,
) -> (r: ToolFailure)
    ensures
        r@ == (ToolFailureView {
            id: id@,
            session_id: session_id@,
            project: project_of_cwd(cwd@),
            project_path: cwd@,
            tool_name: tool_name@,
            error: error@,
            timestamp: timestamp@,
        }),
{
    let project = extract_project_from_cwd(cwd.as_str());
    ToolFailure::new(id, SessionId::new(session_id), project, cwd, tool_name, error, timestamp)
}

/// How long a call took: from its recorded start to `now`, or zero when
/// no start was recorded.
pub open spec fn call_duration(started: Option<Timestamp>, now: Timestamp) -> int {
    match started {
        Some(s) => now@ - s@,
        None => 0,
    }
}

/// Records a call reported by the `PostToolUse` hook: the project is taken
/// from the working directory, which is also kept as the project path, and
/// the duration runs from the start the `PreToolUse` hook recorded (zero
/// without one) to `now`, which is also the record's time stamp.
pub fn use_from_hook(
    id: String,
    session_id: &str,
    tool_name: String,
    tool_input: String,
    cwd: String,
    started: Option<Timestamp>,
    now: Timestamp,
) -> (r: ToolUse)
    requires
        i64::MIN <= call_duration(started, now) <= i64::MAX,
    ensures
        r@ == (ToolUseView {
            id: id@,
            session_id: session_id@,
            project: project_of_cwd(cwd@),
            project_path: cwd@,
            tool_name: tool_name@,
            tool_input: tool_input@,
            duration: call_duration(started, now) as i64,
            timestamp: now@,
        }),
{
    let duration = match started {
        Some(s) => Ms::new(now.value() - s.value()),
        None => Ms::zero(),
    };
    let project = extract_project_from_cwd(cwd.as_str());
    ToolUse::new(id, SessionId::new(session_id), project, cwd, tool_name, tool_input, duration, now)
}

/// Records a system event reported by a hook (a notification or the end of
/// a turn): the project is taken from the working directory, which is also
/// kept as the project path.
pub fn event_from_hook(
    id: String,
    session_id: &str,
    event_type: String,
    content: String,
    cwd: String,
    timestamp: Timestamp,
) -> (r: SystemEvent)
    ensures
        r@ == (SystemEventView {
            id: id@,
            session_id: session_id@,
            project: project_of_cwd(cwd@),
            project_path: cwd@,
            event_type: event_type@,
            content: content@,
            timestamp: timestamp@,
        }),
{
    let project = extract_project_from_cwd(cwd.as_str());
    SystemEvent::new(id, SessionId::new(session_id), project, cwd, event_type, content, timestamp)
}

} // verus!
