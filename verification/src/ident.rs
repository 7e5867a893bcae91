//! Fresh identifiers for new entities.

use vstd::prelude::*;

verus! {

/// A lowercase hexadecimal digit, as `uuid` prints them.
pub open spec fn is_lower_hex(c: char) -> bool {
    ('0' <= c && c <= '9') || ('a' <= c && c <= 'f')
}

/// A 32-character lowercase hexadecimal identifier.
pub open spec fn is_simple_id(s: Seq<char>) -> bool {
    s.len() == 32 && forall|i: int| 0 <= i < 32 ==> is_lower_hex(#[trigger] s[i])
}

/// A random version-4 UUID in its "simple" form (`uuid::Uuid::new_v4`
/// followed by `.simple().to_string()`). The uuid crate writes each of the
/// 16 bytes as two lowercase hex digits, so the text is 32 characters of
/// `0-9a-f`; which identifier comes out is random and is not stated.
#[verifier::external_body]
pub(crate) fn new_simple_id() -> (id: String)
    ensures
        is_simple_id(id@),
{
    uuid::Uuid::new_v4().simple().to_string()
}

} // verus!
