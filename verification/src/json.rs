//! Reading members of JSON values: a text member of an object, and
//! values found by JSON pointer.

use vstd::prelude::*;

verus! {

/// The string that `serde_json` finds under `key` when it parses `text` as a
/// JSON value: `None` when `text` is not JSON, is not an object, has no such
/// member, or the member is not a string.
pub uninterp spec fn json_text_member(text: Seq<char>, key: Seq<char>) -> Option<Seq<char>>;

/// Parses `text` with `serde_json::from_str::<serde_json::Value>`, looks the
/// member up with `Value::get` and reads it with `Value::as_str`. The
/// contract names the outcome; JSON syntax is not restated.
#[verifier::external_body]
pub(crate) fn json_string_field(text: &str, key: &str) -> (r: Option<String>)
    ensures
        match r {
            Some(s) => json_text_member(text@, key@) == Some(s@),
            None => json_text_member(text@, key@) is None,
        },
{
    let value: serde_json::Value = match serde_json::from_str(text) {
        Ok(v) => v,
        Err(_) => return None,
    };
    match value.get(key) {
        Some(serde_json::Value::String(s)) => Some(s.clone()),
        _ => None,
    }
}

/// Whether `serde_json` finds a value at the JSON pointer `pointer` (RFC
/// 6901, as `Value::pointer` reads it) when it parses `text` as a JSON
/// value; `false` when `text` is not JSON.
pub uninterp spec fn json_member_at(text: Seq<char>, pointer: Seq<char>) -> bool;

/// Parses `text` with `serde_json::from_str::<serde_json::Value>` and asks
/// `Value::pointer` for the value at `pointer`. The contract names the
/// answer; JSON syntax and pointer resolution are not restated.
#[verifier::external_body]
pub(crate) fn json_has_member(text: &str, pointer: &str) -> (r: bool)
    ensures
        r == json_member_at(text@, pointer@),
{
    match serde_json::from_str::<serde_json::Value>(text) {
        Ok(v) => v.pointer(pointer).is_some(),
        Err(_) => false,
    }
}

/// The unsigned 64-bit number that `serde_json` finds at the JSON pointer
/// `pointer` when it parses `text` as a JSON value: `None` when `text` is
/// not JSON, nothing is there, or the value there is not a JSON number that
/// `Value::as_u64` reads.
pub uninterp spec fn json_u64_at(text: Seq<char>, pointer: Seq<char>) -> Option<u64>;

/// Parses `text` with `serde_json::from_str::<serde_json::Value>`, asks
/// `Value::pointer` for the value at `pointer` and reads it with
/// `Value::as_u64`. The contract names the outcome.
#[verifier::external_body]
pub(crate) fn json_u64_member(text: &str, pointer: &str) -> (r: Option<u64>)
    ensures
        r == json_u64_at(text@, pointer@),
{
    match serde_json::from_str::<serde_json::Value>(text) {
        Ok(v) => v.pointer(pointer).and_then(serde_json::Value::as_u64),
        Err(_) => None,
    }
}

} // verus!
