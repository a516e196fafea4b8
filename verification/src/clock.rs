//! The wall clock, and how an elapsed time is written out.

use std::time::Duration;
use std::time::Instant;
use vstd::prelude::*;

verus! {

/// A second holds this many nanoseconds.
pub const NANOS_PER_SEC: u32 = 1_000_000_000;

/// `Instant` of std: a moment on the clock, carried from the start of a
/// request to its reply. Nothing inside it is looked at.
#[verifier::external_type_specification]
#[verifier::external_body]
pub struct ExInstant(std::time::Instant);

/// The text that std's `Debug` gives a `Duration` of `secs` whole seconds
/// and `nanos` nanoseconds, such as `1.5µs`.
pub uninterp spec fn duration_debug(secs: u64, nanos: u32) -> Seq<char>;

/// `Instant::now` of std. Nothing is claimed of the moment returned.
#[verifier::external_body]
pub(crate) fn clock_start() -> Instant {
    Instant::now()
}

/// `Instant::elapsed` of std. Nothing is claimed of the time that has passed.
#[verifier::external_body]
pub(crate) fn clock_elapsed(start: &Instant) -> Duration {
    start.elapsed()
}

/// `Duration::as_secs` of std. Nothing is claimed of the number.
#[verifier::external_body]
pub(crate) fn whole_secs(elapsed: &Duration) -> u64 {
    elapsed.as_secs()
}

/// `Duration::subsec_nanos` of std. Trusted: the nanoseconds are a fraction
/// of a second.
#[verifier::external_body]
pub(crate) fn subsec_nanos(elapsed: &Duration) -> (nanos: u32)
    ensures
        nanos < NANOS_PER_SEC,
{
    elapsed.subsec_nanos()
}

/// `Debug` of std's `Duration`, on `Duration::new(secs, nanos)`. Trusted:
/// the text depends on the two numbers alone. With the nanoseconds under one
/// second `Duration::new` carries nothing over and cannot overflow.
#[verifier::external_body]
pub(crate) fn duration_text(secs: u64, nanos: u32) -> (r: String)
    requires
        nanos < NANOS_PER_SEC,
    ensures
        r@ == duration_debug(secs, nanos),
{
    format!("{:?}", Duration::new(secs, nanos))
}

} // verus!
