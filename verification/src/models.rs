//! Entries of the JSONL session logs as the analyzers read them.
//!
//! The tool input is kept as the JSON text it was logged as; the analyzers
//! read single members out of it.

use vstd::prelude::*;

verus! {

/// A tool call inside a log entry.
#[derive(Debug, Clone, PartialEq, Eq)]
pub struct ToolInfo {
    pub name: String,
    pub duration_ms: Option<u64>,
    pub input: Option<String>,
    pub failed: Option<bool>,
    pub error: Option<String>,
}

/// One line of a session log.
#[derive(Debug, Clone, PartialEq, Eq)]
pub struct LogEntry {
    pub timestamp: String,
    pub session_id: String,
    pub project: String,
    pub project_path: String,
    pub role: String,
    pub content: Option<String>,
    pub tool: Option<ToolInfo>,
}

/// The characters of an optional text.
pub open spec fn opt_text(s: Option<String>) -> Option<Seq<char>> {
    match s {
        Some(t) => Some(t@),
        None => None,
    }
}

} // verus!
