//! The host's wall clock, read as whole microseconds.

use std::time::{Duration, SystemTime, UNIX_EPOCH};
use vstd::prelude::*;

verus! {

/// The system clock of std, carried as an opaque value.
#[verifier::external_type_specification]
#[verifier::external_body]
pub struct ExSystemTime(SystemTime);

/// Calls `SystemTime::now`. The instant depends on the host, so nothing is
/// claimed of it.
#[verifier::external_body]
fn system_now() -> (t: SystemTime) {
    SystemTime::now()
}

/// Calls `SystemTime::duration_since` against the Unix epoch and hands the
/// span back, or `None` where the clock stands before the epoch. Nothing is
/// claimed of the span.
#[verifier::external_body]
fn since_epoch(t: &SystemTime) -> (d: Option<Duration>) {
    match t.duration_since(UNIX_EPOCH) {
        Ok(d) => Some(d),
        Err(_) => None,
    }
}

/// Calls `Duration::as_micros`: the span in whole microseconds. Nothing is
/// claimed of the number.
#[verifier::external_body]
fn whole_micros(d: &Duration) -> (us: u128) {
    d.as_micros()
}

/// The current wall-clock time in microseconds since the Unix epoch, as
/// `micros_since_epoch` makes it of what the system clock gave.
///
/// The value depends on the host, so callers are verified for every `u64`.
pub(crate) fn now_micros() -> (now: u64) {
    let t = system_now();
    let span: Option<u128> = match since_epoch(&t) {
        Some(d) => Some(whole_micros(&d)),
        None => None,
    };
    micros_since_epoch(span)
}

/// An instant as a `u64`: the span since the Unix epoch in microseconds,
/// at most `u64::MAX`, and 0 for a clock that stands before the epoch.
pub open spec fn saturated_micros(span: Option<u128>) -> u64 {
    match span {
        None => 0,
        Some(us) => if us > u64::MAX {
            u64::MAX
        } else {
            us as u64
        },
    }
}

/// Makes an instant of the span since the Unix epoch that the system clock
/// gave, in microseconds, or of `None` where the clock stands before the
/// epoch: the span itself where it fits a `u64`, `u64::MAX` where it does
/// not, and 0 for `None`.
pub fn micros_since_epoch(span: Option<u128>) -> (now: u64)
    ensures
        now == saturated_micros(span),
        span is None ==> now == 0,
        span is Some && span->0 <= u64::MAX ==> now == span->0,
        span is Some && span->0 > u64::MAX ==> now == u64::MAX,
{
    match span {
        Some(us) => {
            if us > 0xFFFF_FFFF_FFFF_FFFFu128 {
                0xFFFF_FFFF_FFFF_FFFFu64
            } else {
                us as u64
            }
        },
        None => 0u64,
    }
}

} // verus!
