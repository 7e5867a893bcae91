//! Regular-expression tests on command lines.

use vstd::prelude::*;

verus! {

/// What the `regex` crate answers when `pattern` is compiled with
/// `Regex::new` and tested against `text` with `is_match`: `None` when the
/// pattern does not compile, otherwise whether some part of `text` matches.
pub uninterp spec fn regex_verdict(pattern: Seq<char>, text: Seq<char>) -> Option<bool>;

/// Compiles `pattern` with `regex::Regex::new` and, when it compiles, asks
/// `Regex::is_match` whether it matches somewhere in `text`. The contract
/// names the answer and does not restate the regex semantics.
#[verifier::external_body]
pub(crate) fn regex_is_match(pattern: &str, text: &str) -> (r: Option<bool>)
    ensures
        r == regex_verdict(pattern@, text@),
{
    match regex::Regex::new(pattern) {
        Ok(re) => Some(re.is_match(text)),
        Err(_) => None,
    }
}

} // verus!
