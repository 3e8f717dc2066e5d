//! Reading the system clock into a `Timestamp`.

use crate::block::Timestamp;
use std::time::{Duration, SystemTime, UNIX_EPOCH};
use vstd::prelude::*;

verus! {

/// `std::time::SystemTime`, carried through as an opaque value.
#[verifier::external_type_specification]
#[verifier::external_body]
pub struct ExSystemTime(std::time::SystemTime);

/// Calls `SystemTime::now`. Nothing is claimed of the instant it returns.
#[verifier::external_body]
fn system_now() -> (t: SystemTime) {
    SystemTime::now()
}

/// Calls `SystemTime::duration_since` against `UNIX_EPOCH`: the time elapsed
/// since the epoch, or `None` where `t` lies before it. Nothing is claimed of
/// which of the two comes back.
#[verifier::external_body]
fn since_epoch(t: &SystemTime) -> (elapsed: Option<Duration>) {
    match t.duration_since(UNIX_EPOCH) {
        Ok(d) => Some(d),
        Err(_) => None,
    }
}

/// Calls `Duration::as_secs`: the whole seconds of the duration.
#[verifier::external_body]
fn whole_seconds(d: &Duration) -> (secs: u64) {
    d.as_secs()
}

/// Calls `Duration::subsec_nanos`: the fractional part of the duration in
/// nanoseconds, which is documented to stay below one billion.
#[verifier::external_body]
fn fractional_nanos(d: &Duration) -> (nanos: u32)
    ensures
        nanos < 1_000_000_000,
{
    d.subsec_nanos()
}

impl Timestamp {
    /// The current reading of the system clock. A clock set before the Unix
    /// epoch reads as the epoch itself.
    pub fn now() -> (t: Timestamp)
        ensures
            t.nanos_since_epoch < 1_000_000_000,
    {
        let instant = system_now();
        let elapsed = match since_epoch(&instant) {
            Some(d) => Some((whole_seconds(&d), fractional_nanos(&d))),
            None => None,
        };
        Timestamp::from_elapsed(elapsed)
    }

    /// The time stamp for a clock reading: `elapsed` holds the whole seconds
    /// and the nanoseconds beyond them that have passed since the Unix epoch,
    /// or nothing where the clock stands before the epoch. Such a clock reads
    /// as the epoch itself.
    pub fn from_elapsed(elapsed: Option<(u64, u32)>) -> (t: Timestamp)
        ensures
            t == timestamp_of(elapsed),
    {
        match elapsed {
            Some((secs, nanos)) => Timestamp { secs_since_epoch: secs, nanos_since_epoch: nanos },
            None => Timestamp { secs_since_epoch: 0, nanos_since_epoch: 0 },
        }
    }
}

/// The time stamp for a clock reading: the seconds and nanoseconds that have
/// passed since the Unix epoch, or the epoch where the clock stands before
/// it.
pub open spec fn timestamp_of(elapsed: Option<(u64, u32)>) -> Timestamp {
    match elapsed {
        Some((secs, nanos)) => Timestamp { secs_since_epoch: secs, nanos_since_epoch: nanos },
        None => Timestamp { secs_since_epoch: 0, nanos_since_epoch: 0 },
    }
}

} // verus!
