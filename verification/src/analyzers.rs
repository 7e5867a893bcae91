//! Analyses of the JSONL session logs.

pub mod session_summary;
