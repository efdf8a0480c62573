//! The wall clock, which the playlist uses as a cheap source of shuffle
//! seeds.

use vstd::prelude::*;
use core::time::Duration;
use std::time::SystemTimeError;

verus! {

#[verifier::external_type_specification]
#[verifier::external_body]
pub struct ExSystemTimeError(SystemTimeError);

/// `SystemTime::elapsed` on `UNIX_EPOCH`: how long ago the epoch was, by the
/// system clock, or an error when the clock reads earlier than the epoch.
/// Nothing is claimed about the value: it is the time of day.
#[verifier::external_body]
pub(crate) fn time_since_epoch() -> Result<Duration, SystemTimeError> {
    std::time::UNIX_EPOCH.elapsed()
}

/// `Duration::subsec_nanos`: the fractional part of a duration in
/// nanoseconds, which its documentation says is always below one billion.
#[verifier::external_body]
pub(crate) fn subsec_nanos(d: &Duration) -> (r: u32)
    ensures
        r < 1_000_000_000,
{
    d.subsec_nanos()
}

/// A seed that changes from call to call: the sub-second nanoseconds of the
/// clock, or 1 when the clock is unreadable.
pub fn clock_seed() -> (r: usize)
    ensures
        r < 1_000_000_000,
{
    match time_since_epoch() {
        Ok(d) => subsec_nanos(&d) as usize,
        Err(_) => 1,
    }
}

} // verus!
