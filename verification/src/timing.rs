//! Waits, in the ticks of the device's timer.

use embassy_time::Duration;
use vstd::prelude::*;

verus! {

/// How many ticks the timer makes in a millisecond: it runs at one megahertz.
pub const TICKS_PER_MILLI: u64 = 1_000;

/// `Duration::from_millis`, read back with `Duration::as_ticks`: a whole number of ticks
/// for every millisecond, as the timer's rate is a whole multiple of a kilohertz. The
/// product has to fit in 64 bits.
#[verifier::external_body]
fn ticks_from_millis(millis: u64) -> (ticks: u64)
    requires
        millis * TICKS_PER_MILLI <= u64::MAX,
    ensures
        ticks == millis * TICKS_PER_MILLI,
{
    Duration::from_millis(millis).as_ticks()
}

/// How many ticks a sleep of this many milliseconds lasts.
pub fn sleep(millis: u32) -> (ticks: u64)
    ensures
        ticks == millis * TICKS_PER_MILLI,
{
    ticks_from_millis(millis as u64)
}

} // verus!
