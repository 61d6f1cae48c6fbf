//! Reading of the system clock.

use vstd::prelude::*;
use std::time::{Duration, SystemTime};

verus! {

/// The system clock's time, `std::time::SystemTime`.
#[verifier::external_type_specification]
#[verifier::external_body]
pub struct ExSystemTime(std::time::SystemTime);

/// `SystemTime::now`: the clock's reading at the time of the call; nothing
/// is stated of it.
#[verifier::external_body]
fn clock_now() -> SystemTime {
    SystemTime::now()
}

/// `SystemTime::duration_since` from `UNIX_EPOCH`: the time elapsed since
/// the epoch, none when `t` is earlier. Neither is stated, as `t` is opaque
/// here.
#[verifier::external_body]
fn since_unix_epoch(t: &SystemTime) -> Option<Duration> {
    match t.duration_since(std::time::UNIX_EPOCH) {
        Ok(d) => Some(d),
        Err(_) => None,
    }
}

/// `Duration::as_secs`: the whole seconds of `d`, which is opaque here, so
/// nothing is stated of the result.
#[verifier::external_body]
fn whole_secs(d: &Duration) -> u64 {
    d.as_secs()
}

/// The clock's reading in whole seconds since the unix epoch, or `None`
/// when it reads before the epoch.
pub(crate) fn system_unix_secs() -> Option<u64> {
    let t = clock_now();
    match since_unix_epoch(&t) {
        Some(d) => Some(whole_secs(&d)),
        None => None,
    }
}

/// Current unix time in seconds, 0 when the clock reads before the epoch:
/// [`unix_now_at`] of the clock's reading.
pub fn unix_now() -> (r: u64)
    ensures
        exists|now: Option<u64>| r == #[trigger] unix_now_value(now),
{
    let now = system_unix_secs();
    unix_now_at(now)
}

/// The value `unix_now` gives for a clock reading.
pub open spec fn unix_now_value(now: Option<u64>) -> u64 {
    match now {
        Some(s) => s,
        None => 0,
    }
}

/// The unix time for a clock reading in whole seconds since the epoch, or
/// `None` for a reading before the epoch, which gives 0.
pub fn unix_now_at(now: Option<u64>) -> (r: u64)
    ensures
        r == unix_now_value(now),
{
    match now {
        Some(s) => s,
        None => 0,
    }
}

} // verus!
