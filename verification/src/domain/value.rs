//! Small value types: session identifiers, millisecond timestamps and
//! millisecond durations.

use vstd::prelude::*;
use crate::text::{chars_of, dec_i64, dec_int, push_str, string_of};
use crate::time::now_millis;

verus! {

/// Identifier of one coding-agent session.
#[derive(Debug, Clone, PartialEq, Eq, Hash)]
pub struct SessionId(String);

impl View for SessionId {
    type V = Seq<char>;

    closed spec fn view(&self) -> Seq<char> {
        self.0@
    }
}

impl SessionId {
    /// Wraps the given text.
    pub fn new(value: &str) -> (r: Self)
        ensures
            r@ == value@,
    {
        SessionId(value.to_owned())
    }

    /// Wraps an owned string without copying it.
    pub fn from_string(value: String) -> (r: Self)
        ensures
            r@ == value@,
    {
        SessionId(value)
    }

    /// The identifier text.
    pub fn as_str(&self) -> (r: &str)
        ensures
            r@ == self@,
    {
        self.0.as_str()
    }

    /// The identifier as it is displayed: the text itself.
    pub fn to_string(&self) -> (r: String)
        ensures
            r@ == self@,
    {
        self.0.clone()
    }
}

/// A point in time, in milliseconds since the Unix epoch.
#[derive(Debug, Clone, Copy, PartialEq, Eq, Hash)]
pub struct Timestamp(i64);

impl View for Timestamp {
    type V = i64;

    closed spec fn view(&self) -> i64 {
        self.0
    }
}

impl Timestamp {
    /// The timestamp `value` milliseconds after the epoch.
    pub fn new(value: i64) -> (r: Self)
        ensures
            r@ == value,
    {
        Timestamp(value)
    }

    /// The current time, read from the system clock.
    pub fn now() -> (r: Self)
        ensures
            r@ >= 0,
    {
        Timestamp(now_millis())
    }

    /// Milliseconds since the epoch.
    pub fn value(self) -> (r: i64)
        ensures
            r == self@,
    {
        self.0
    }

    /// The decimal millisecond count, as it is displayed.
    pub fn to_string(&self) -> (r: String)
        ensures
            r@ == dec_int(self@ as int),
    {
        string_of(&dec_i64(self.0))
    }
}

/// A span of time in milliseconds.
#[derive(Debug, Clone, Copy, PartialEq, Eq, Hash)]
pub struct Ms(i64);

impl View for Ms {
    type V = i64;

    closed spec fn view(&self) -> i64 {
        self.0
    }
}

impl Ms {
    /// A span of `value` milliseconds.
    pub fn new(value: i64) -> (r: Self)
        ensures
            r@ == value,
    {
        Ms(value)
    }

    /// The empty span.
    pub fn zero() -> (r: Self)
        ensures
            r@ == 0,
    {
        Ms(0)
    }

    /// The length in milliseconds.
    pub fn value(self) -> (r: i64)
        ensures
            r == self@,
    {
        self.0
    }

    /// The span as it is displayed: the decimal count followed by `ms`.
    pub fn to_string(&self) -> (r: String)
        ensures
            r@ == dec_int(self@ as int) + "ms"@,
    {
        let mut v = dec_i64(self.0);
        push_str(&mut v, "ms");
        string_of(&v)
    }
}

/// A time stamp is its count of milliseconds: two stamps with the same
/// view are the same stamp.
pub proof fn lemma_timestamp_view_determines(a: Timestamp, b: Timestamp)
    requires
        a@ == b@,
    ensures
        a == b,
{
}

/// A duration is its count of milliseconds: two durations with the same
/// view are the same duration.
pub proof fn lemma_ms_view_determines(a: Ms, b: Ms)
    requires
        a@ == b@,
    ensures
        a == b,
{
}

} // verus!
