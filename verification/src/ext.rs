//! The two points where the core touches the outside world directly: fresh
//! identifiers and the wall clock. Both results depend on the environment,
//! so nothing is promised of the values; callers state what holds of every
//! outcome.

use vstd::prelude::*;

verus! {

/// Relies on uuid::Uuid::new_v4 and its Display form: a random version-4
/// UUID rendered hyphenated, which is always 36 characters. Randomness
/// allows no promise beyond the length; in particular not freshness.
#[verifier::external_body]
pub(crate) fn new_uuid() -> (r: String)
    ensures
        r@.len() == 36,
{
    uuid::Uuid::new_v4().to_string()
}

/// Relies on chrono::Utc::now: the current wall-clock time in milliseconds
/// since the Unix epoch. Nothing is promised of the value.
#[verifier::external_body]
pub(crate) fn now_millis() -> (t: i64) {
    chrono::Utc::now().timestamp_millis()
}

} // verus!
