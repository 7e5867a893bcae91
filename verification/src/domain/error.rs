//! Errors raised by the domain rules.

use vstd::prelude::*;
use crate::text::{chars_of, push_str, string_of};

verus! {

/// A rule of the domain was violated; the text says which.
#[derive(Debug)]
pub enum DomainError {
    Validation(String),
}

impl DomainError {
    /// The message carried by the error.
    pub open spec fn message(self) -> Seq<char> {
        match self {
            DomainError::Validation(m) => m@,
        }
    }

    /// The error as a user reads it: `Validation error: <message>`.
    pub fn to_string(&self) -> (s: String)
        ensures
            s@ == "Validation error: "@ + self.message(),
    {
        match self {
            DomainError::Validation(m) => {
                let mut v = chars_of("Validation error: ");
                push_str(&mut v, m.as_str());
                string_of(&v)
            },
        }
    }
}

} // verus!
