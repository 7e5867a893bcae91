//! When a failing hook may notify the user again.

use vstd::prelude::*;

use crate::text::{chars_of, parse_i64, parse_i64_spec, trim, trim_chars};

verus! {

/// Seconds that must pass between two notifications.
pub const NOTIFICATION_COOLDOWN_SECS: i64 = 300;

/// Whether a notification is due at `now` (seconds since the epoch), given
/// the content of the marker holding the time of the last one: always when
/// there is no marker; an unreadable marker counts as time zero.
pub open spec fn notification_due_at(marker: Option<Seq<char>>, now: i64) -> bool {
    match marker {
        None => true,
        Some(m) => {
            let last: int = match parse_i64_spec(trim(m)) {
                Some(v) => v as int,
                None => 0,
            };
            now - last >= NOTIFICATION_COOLDOWN_SECS
        },
    }
}

/// Decides whether to notify now, from the marker content if there is one.
pub fn notification_due(marker: Option<&str>, now_secs: i64) -> (r: bool)
    ensures
        r == notification_due_at(
            match marker {
                Some(m) => Some(m@),
                None => None,
            },
            now_secs,
        ),
{
    match marker {
        None => true,
        Some(m) => {
            let last: i64 = match parse_i64(&trim_chars(&chars_of(m))) {
                Some(v) => v,
                None => 0,
            };
            (now_secs as i128) - (last as i128) >= NOTIFICATION_COOLDOWN_SECS as i128
        },
    }
}

} // verus!
