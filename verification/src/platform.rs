//! The two process-level inputs the logic consumes as plain values: the
//! current time and fresh identifiers.

use vstd::prelude::*;

verus! {

/// The current Unix time, in whole seconds.
///
/// Relies on chrono::Utc::now: the instant depends on the wall clock, so
/// nothing is promised of the value; callers state what holds for every
/// reading. Like the clock read it wraps, it aborts if the system clock
/// reads before the Unix epoch — an environment fault, never reachable
/// from any input.
#[verifier::external_body]
pub fn now_ts() -> u64 {
    u64::try_from(chrono::Utc::now().timestamp()).unwrap_or(0)
}

/// A freshly drawn 128-bit identifier.
///
/// Relies on uuid::Uuid::new_v4: the value is random, so nothing is
/// promised of it; callers that need uniqueness check it against the
/// store. Like the generator it wraps, it aborts if the OS random
/// source fails — an environment fault, never reachable from any input.
#[verifier::external_body]
pub fn new_id() -> u128 {
    uuid::Uuid::new_v4().as_u128()
}

} // verus!
