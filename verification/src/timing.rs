//! Start times of tool calls, kept between the pre- and post-call hooks in
//! one small file per call.

use vstd::prelude::*;

use crate::domain::value::Timestamp;
use crate::text::{chars_of, parse_i64, parse_i64_spec, push_str, string_of, trim, trim_chars};

verus! {

/// The name of the file holding the start time of call `tool_use_id`.
pub fn start_file_name(tool_use_id: &str) -> (r: String)
    ensures
        r@ == tool_use_id@ + "_start"@,
{
    let mut v = chars_of(tool_use_id);
    push_str(&mut v, "_start");
    string_of(&v)
}

/// Reads a start time file: the millisecond count it holds, surrounding
/// white space ignored; `None` when it holds no such number.
pub fn parse_start_time(content: &str) -> (r: Option<Timestamp>)
    ensures
        match r {
            Some(t) => parse_i64_spec(trim(content@)) == Some(t@),
            None => parse_i64_spec(trim(content@)) is None,
        },
{
    match parse_i64(&trim_chars(&chars_of(content))) {
        Some(v) => Some(Timestamp::new(v)),
        None => None,
    }
}

} // verus!
