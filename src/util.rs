//! Wall-clock time and random draws.
use rand::Rng;
use std::time::{SystemTime, SystemTimeError};
use vstd::prelude::*;

verus! {

#[verifier::external_type_specification]
#[verifier::external_body]
pub struct ExSystemTime(SystemTime);

#[verifier::external_type_specification]
#[verifier::external_body]
pub struct ExSystemTimeError(SystemTimeError);

/// Relies on `Duration::as_secs`: the whole seconds of a duration.
pub assume_specification[ core::time::Duration::as_secs ](d: &core::time::Duration) -> u64;

/// Relies on `Duration::subsec_millis`, documented to be below one thousand.
pub assume_specification[ core::time::Duration::subsec_millis ](d: &core::time::Duration) -> (r: u32)
    ensures
        r < 1000,
;

/// Relies on `SystemTime::now`: the current wall-clock time.
#[verifier::external_body]
fn clock_now() -> SystemTime {
    SystemTime::now()
}

/// Relies on `SystemTime::duration_since`, measured from the Unix epoch; it
/// fails when the clock reads earlier than the epoch.
#[verifier::external_body]
fn since_unix_epoch(t: &SystemTime) -> Result<core::time::Duration, SystemTimeError> {
    t.duration_since(SystemTime::UNIX_EPOCH)
}

/// Relies on rand's `thread_rng` and `Rng::gen_range`, which draws uniformly
/// from the half-open range and panics only when it is empty.
#[verifier::external_body]
fn draw_u64(low: u64, high: u64) -> (r: u64)
    requires
        low < high,
    ensures
        low <= r < high,
{
    rand::thread_rng().gen_range(low..high)
}

/// Milliseconds of `secs` seconds and `subsec_millis` milliseconds, saturated
/// at the largest `u64`.
pub open spec fn millis_spec(secs: u64, subsec_millis: u32) -> int {
    let m = secs * 1000 + subsec_millis;
    if m > u64::MAX {
        u64::MAX as int
    } else {
        m
    }
}

/// Combines the whole seconds and the milliseconds of a duration.
pub fn millis_from_parts(secs: u64, subsec_millis: u32) -> (r: u64)
    ensures
        r as int == millis_spec(secs, subsec_millis),
{
    match secs.checked_mul(1000) {
        Some(m) => m.saturating_add(subsec_millis as u64),
        None => u64::MAX,
    }
}

/// Milliseconds of a clock reading given as whole seconds and milliseconds
/// since the Unix epoch; a clock that reads before the epoch (`None`) gives 0.
pub fn millis_from_reading(reading: Option<(u64, u32)>) -> (r: u64)
    ensures
        reading is None ==> r == 0,
        reading matches Some((secs, ms)) ==> r as int == millis_spec(secs, ms),
{
    match reading {
        Some((secs, ms)) => millis_from_parts(secs, ms),
        None => 0,
    }
}

/// Milliseconds since the Unix epoch, or 0 when the clock reads earlier.
pub fn get_time_millis() -> (r: u64) {
    let now = clock_now();
    let reading = match since_unix_epoch(&now) {
        Ok(d) => Some((d.as_secs(), d.subsec_millis())),
        Err(_) => None,
    };
    millis_from_reading(reading)
}

/// A uniformly drawn number with `min <= r < range`.
pub fn random_u64(min: u64, range: u64) -> (r: u64)
    requires
        min < range,
    ensures
        min <= r < range,
{
    draw_u64(min, range)
}

} // verus!
