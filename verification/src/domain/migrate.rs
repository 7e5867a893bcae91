//! Moving entries of the old JSONL logs into tool-call records.

use vstd::prelude::*;

use super::log::{ToolFailure, ToolFailureView, ToolUse, ToolUseView};
use super::value::{Ms, SessionId, Timestamp};
use crate::digest::{hex_digit, hex_encode, hex_text, sha256_of_text, sha256_text};
use crate::ident::{is_lower_hex, is_simple_id};
use crate::models::{opt_text, LogEntry};
use crate::text::{push_str, string_of};
use crate::time::{parse_rfc3339_millis, rfc3339_instant_ms};

verus! {

/// What one log entry becomes.
#[derive(Debug)]
pub enum MigratedRecord {
    Use(ToolUse),
    Failure(ToolFailure),
}

/// Counts kept while migrating a log directory.
#[derive(Debug)]
pub struct MigrateSummary {
    pub tool_uses: u32,
    pub tool_failures: u32,
    pub skipped: u32,
    pub files: u32,
}

impl Default for MigrateSummary {
    fn default() -> (r: MigrateSummary)
        ensures
            r.tool_uses == 0 && r.tool_failures == 0 && r.skipped == 0 && r.files == 0,
    {
        MigrateSummary { tool_uses: 0, tool_failures: 0, skipped: 0, files: 0 }
    }
}

/// The identifier of a migrated record: the first 16 bytes of the SHA-256
/// digest of session, time stamp and tool name written one after another,
/// in lowercase hexadecimal.
pub open spec fn content_id(session_id: Seq<char>, timestamp: Seq<char>, tool_name: Seq<char>) -> Seq<
    char,
> {
    hex_text(sha256_of_text(session_id + timestamp + tool_name).take(16))
}

proof fn lemma_hex_text_shape(bytes: Seq<u8>)
    ensures
        hex_text(bytes).len() == 2 * bytes.len(),
        forall|i: int| 0 <= i < hex_text(bytes).len() ==> is_lower_hex(#[trigger] hex_text(bytes)[i]),
    decreases bytes.len(),
{
    if bytes.len() > 0 {
        lemma_hex_text_shape(bytes.drop_last());
        let b = bytes.last() as int;
        assert(0 <= b / 16 < 16 && 0 <= b % 16 < 16);
        assert(is_lower_hex(hex_digit(b / 16)));
        assert(is_lower_hex(hex_digit(b % 16)));
        let prev = hex_text(bytes.drop_last());
        assert forall|i: int| 0 <= i < hex_text(bytes).len() implies is_lower_hex(
            #[trigger] hex_text(bytes)[i],
        ) by {
            if i < prev.len() {
                assert(hex_text(bytes)[i] == prev[i]);
            }
        }
    }
}

/// The identifier of a migrated record: 32 lowercase hexadecimal digits
/// taken from the SHA-256 digest of session, time stamp and tool name, so
/// that the same entry always gets the same identifier.
pub fn content_based_id(session_id: &str, timestamp: &str, tool_name: &str) -> (r: String)
    ensures
        r@ == content_id(session_id@, timestamp@, tool_name@),
        is_simple_id(r@),
{
    let mut text: Vec<char> = Vec::new();
    push_str(&mut text, session_id);
    push_str(&mut text, timestamp);
    push_str(&mut text, tool_name);
    let joined = string_of(&text);
    let digest = sha256_text(joined.as_str());
    let mut head: Vec<u8> = Vec::new();
    let mut i: usize = 0;
    while i < 16
        invariant
            i <= 16,
            digest@.len() == 32,
            head@ == digest@.take(i as int),
        decreases 16 - i,
    {
        head.push(digest[i]);
        assert(digest@.take(i + 1) =~= digest@.take(i as int).push(digest@[i as int]));
        i += 1;
    }
    proof {
        assert(joined@ =~= session_id@ + timestamp@ + tool_name@);
        lemma_hex_text_shape(head@);
    }
    hex_encode(head.as_slice())
}

/// What a log entry becomes: nothing when it records no tool call or its
/// time stamp is not RFC 3339; a failure when the call failed; a tool call
/// otherwise.
pub open spec fn migrated_use(e: LogEntry) -> Option<ToolUseView> {
    match e.tool {
        Some(t) => match rfc3339_instant_ms(e.timestamp@) {
            Some(ms) => if t.failed == Some(true) {
                None
            } else {
                Some(
                    ToolUseView {
                        id: content_id(e.session_id@, e.timestamp@, t.name@),
                        session_id: e.session_id@,
                        project: e.project@,
                        project_path: e.project_path@,
                        tool_name: t.name@,
                        tool_input: match opt_text(t.input) {
                            Some(i) => i,
                            None => Seq::empty(),
                        },
                        duration: match t.duration_ms {
                            Some(d) => d as i64,
                            None => 0,
                        },
                        timestamp: ms,
                    },
                )
            },
            None => None,
        },
        None => None,
    }
}

/// The failure a log entry becomes, when it records a failed call with an
/// RFC 3339 time stamp.
pub open spec fn migrated_failure(e: LogEntry) -> Option<ToolFailureView> {
    match e.tool {
        Some(t) => match rfc3339_instant_ms(e.timestamp@) {
            Some(ms) => if t.failed == Some(true) {
                Some(
                    ToolFailureView {
                        id: content_id(e.session_id@, e.timestamp@, t.name@),
                        session_id: e.session_id@,
                        project: e.project@,
                        project_path: e.project_path@,
                        tool_name: t.name@,
                        error: match opt_text(t.error) {
                            Some(x) => x,
                            None => Seq::empty(),
                        },
                        timestamp: ms,
                    },
                )
            } else {
                None
            },
            None => None,
        },
        None => None,
    }
}

/// Turns a log entry into a tool call or a failed tool call; `None` when
/// it records no tool call or its time stamp does not parse.
pub fn convert_entry(entry: &LogEntry) -> (r: Option<MigratedRecord>)
    ensures
        match r {
            Some(MigratedRecord::Use(u)) => migrated_use(*entry) == Some(u@),
            Some(MigratedRecord::Failure(f)) => migrated_failure(*entry) == Some(f@),
            None => migrated_use(*entry) is None && migrated_failure(*entry) is None,
        },
{
    let tool = match &entry.tool {
        Some(t) => t,
        None => return None,
    };
    let ts = match parse_rfc3339_millis(entry.timestamp.as_str()) {
        Some(ms) => ms,
        None => return None,
    };
    let id = content_based_id(entry.session_id.as_str(), entry.timestamp.as_str(), tool.name.as_str());
    if tool.failed == Some(true) {
        let error = match &tool.error {
            Some(e) => e.clone(),
            None => String::new(),
        };
        Some(
            MigratedRecord::Failure(
                ToolFailure::new(
                    id,
                    SessionId::new(entry.session_id.as_str()),
                    entry.project.clone(),
                    entry.project_path.clone(),
                    tool.name.clone(),
                    error,
                    Timestamp::new(ts),
                ),
            ),
        )
    } else {
        let input = match &tool.input {
            Some(i) => i.clone(),
            None => String::new(),
        };
        let duration = match tool.duration_ms {
            Some(d) => Ms::new(
                #[verifier::truncate]
                (d as i64),
            ),
            None => Ms::zero(),
        };
        Some(
            MigratedRecord::Use(
                ToolUse::new(
                    id,
                    SessionId::new(entry.session_id.as_str()),
                    entry.project.clone(),
                    entry.project_path.clone(),
                    tool.name.clone(),
                    input,
                    duration,
                    Timestamp::new(ts),
                ),
            ),
        )
    }
}

/// A log entry becomes at most one record: a failure when its call failed,
/// a tool call otherwise; and it becomes one exactly when it records a call
/// and its time stamp parses.
pub proof fn lemma_entry_becomes_one_record(e: LogEntry)
    ensures
        !(migrated_use(e) is Some && migrated_failure(e) is Some),
        (migrated_use(e) is Some || migrated_failure(e) is Some) <==> (e.tool is Some
            && rfc3339_instant_ms(e.timestamp@) is Some),
{
}

} // verus!
