//! The host's monotonic clock, behind trusted declarations. The engine
//! only ever asks how many milliseconds have passed since a reading; the
//! decision to count the timers down stays in verified code.

use vstd::prelude::*;

verus! {

#[verifier::external_type_specification]
#[verifier::external_body]
pub struct ExInstant(std::time::Instant);

/// Relies on std::time::Instant::now: an opaque reading of the host's
/// monotonic clock. Nothing is promised of its value.
#[verifier::external_body]
pub(crate) fn instant_now() -> std::time::Instant {
    std::time::Instant::now()
}

/// Relies on std::time::Instant::elapsed: the time passed since the
/// reading `t`, as an opaque duration. Nothing is promised of its value.
#[verifier::external_body]
pub(crate) fn elapsed_since(t: &std::time::Instant) -> std::time::Duration {
    t.elapsed()
}

/// Relies on std::time::Duration::as_millis: the duration in whole
/// milliseconds. Nothing is promised of its value.
#[verifier::external_body]
pub(crate) fn duration_millis(d: &std::time::Duration) -> u128 {
    d.as_millis()
}

} // verus!
