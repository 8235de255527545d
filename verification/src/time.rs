//! Durations as clock ticks, converted by `embassy_time` at its tick rate.
//!
//! The library measures time in ticks of the `embassy_time` clock (what
//! `Instant::as_ticks` gives). How many ticks make a second depends on the tick
//! rate that `embassy_time` was built with, so the conversions are made by
//! `embassy_time` itself and the library speaks of their results by name.
use vstd::prelude::*;

verus! {

/// The ticks that `embassy_time::Duration::from_secs(secs)` holds.
pub uninterp spec fn secs_as_ticks(secs: u64) -> u64;

/// The ticks that `embassy_time::Duration::from_millis(millis)` holds.
pub uninterp spec fn millis_as_ticks(millis: u64) -> u64;

/// The milliseconds that `embassy_time::Duration::as_millis` gives for a
/// duration of `ticks` ticks.
pub uninterp spec fn ticks_as_millis(ticks: u64) -> u64;

/// Calls `embassy_time::Duration::from_secs` and returns the ticks it holds.
/// The crate computes `secs * TICK_HZ`, which cannot overflow for the `secs`
/// admitted here at any tick rate the crate offers (at most about 5.3e9 Hz).
/// The contract says so, with the tick rate written as the ticks of one
/// second, and that the result is positive when `secs` is, since `TICK_HZ` is
/// at least one; the tick rate itself is left unsaid, as it is chosen by a
/// feature of `embassy_time` when the program is built.
#[verifier::external_body]
pub fn secs_to_ticks(secs: u64) -> (t: u64)
    requires
        secs <= 1_000_000,
    ensures
        t == secs_as_ticks(secs),
        t == secs * secs_as_ticks(1),
        secs > 0 ==> t > 0,
{
    embassy_time::Duration::from_secs(secs).as_ticks()
}

/// Calls `embassy_time::Duration::from_millis` and returns the ticks it holds:
/// `millis * TICK_HZ / 1000`, rounded up, so a positive number of milliseconds
/// never gives zero ticks. The product the crate forms cannot overflow for the
/// `millis` admitted here. The tick rate is written as the ticks of one second.
#[verifier::external_body]
pub fn millis_to_ticks(millis: u64) -> (t: u64)
    requires
        millis <= 1_000_000,
    ensures
        t == millis_as_ticks(millis),
        t == (millis * secs_as_ticks(1) + 999) / 1000,
        millis > 0 ==> t > 0,
{
    embassy_time::Duration::from_millis(millis).as_ticks()
}

/// Calls `embassy_time::Duration::as_millis` on a duration of `ticks` ticks:
/// `ticks * 1000 / TICK_HZ`, rounded down. The crate multiplies `ticks` by at
/// most 1000 before dividing, so the admitted `ticks` cannot overflow. The tick
/// rate is written as the ticks of one second; zero ticks are zero
/// milliseconds at any rate.
#[verifier::external_body]
pub fn ticks_to_millis(ticks: u64) -> (ms: u64)
    requires
        ticks <= u64::MAX / 1000,
    ensures
        ms == ticks_as_millis(ticks),
        ms == (ticks * 1000) / (secs_as_ticks(1) as int),
        ticks == 0 ==> ms == 0,
{
    embassy_time::Duration::from_ticks(ticks).as_millis()
}

} // verus!
