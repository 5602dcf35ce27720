use vstd::prelude::*;
use std::time::Instant;
use std::time::SystemTime;
use std::time::UNIX_EPOCH;

verus! {

#[verifier::external_type_specification]
#[verifier::external_body]
pub struct ExInstant(Instant);

/// Relies on std's `Instant::now`: a reading of the monotonic clock.
#[verifier::external_body]
pub(crate) fn instant_now() -> (r: Instant) {
    Instant::now()
}

/// Relies on std's `Instant::elapsed`: the nanoseconds that have passed
/// since `origin` on the monotonic clock.
#[verifier::external_body]
pub(crate) fn nanos_since(origin: &Instant) -> (r: u128) {
    origin.elapsed().as_nanos()
}

#[verifier::external_type_specification]
#[verifier::external_body]
pub struct ExSystemTime(SystemTime);

/// Relies on std's `SystemTime::now`: a reading of the system clock.
#[verifier::external_body]
pub(crate) fn system_time_now() -> (r: SystemTime) {
    SystemTime::now()
}

/// Relies on std's `SystemTime::duration_since` from `UNIX_EPOCH`: whole
/// seconds from the Unix epoch to `t`, or `None` where `t` is before it.
#[verifier::external_body]
pub(crate) fn unix_secs(t: &SystemTime) -> (r: Option<u64>) {
    t.duration_since(UNIX_EPOCH).ok().map(|d| d.as_secs())
}

} // verus!
