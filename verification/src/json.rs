//! The request decoder's first step: is the body text JSON at all? A body
//! that is not valid JSON surfaces through the same error envelope as any
//! other failure.

use vstd::prelude::*;

verus! {

/// Whether the decoder accepts a text as JSON. Acceptance depends on the
/// characters alone.
pub uninterp spec fn json_valid(s: Seq<char>) -> bool;

/// Relies on `serde_json::from_str::<Value>`: whether it accepts a text
/// depends on the characters alone, and its error's message describes
/// the parse failure.
#[verifier::external_body]
pub(crate) fn check_json(s: &str) -> (r: Result<(), String>)
    ensures
        r is Ok <==> json_valid(s@),
{
    match serde_json::from_str::<serde_json::Value>(s) {
        Ok(_) => Ok(()),
        Err(e) => Err(e.to_string()),
    }
}

} // verus!
