//! Trusted wrappers around the identifier and clock capabilities.

use vstd::prelude::*;

verus! {

/// Relies on uuid::Uuid::new_v4 and Uuid's Display impl: a fresh random
/// (version 4) UUID rendered in its hyphenated form, which is exactly 36
/// characters. The value is random, so nothing more is assumed of it.
#[verifier::external_body]
pub(crate) fn fresh_check_id() -> (r: String)
    ensures
        r@.len() == 36,
{
    uuid::Uuid::new_v4().to_string()
}

/// Relies on chrono::Utc::now and DateTime::to_rfc3339: the current wall
/// clock rendered as an RFC 3339 timestamp. The value depends on the time
/// of the call, so only non-emptiness is assumed of it.
#[verifier::external_body]
pub(crate) fn now_rfc3339() -> (r: String)
    ensures
        r@.len() > 0,
{
    chrono::Utc::now().to_rfc3339()
}

} // verus!
