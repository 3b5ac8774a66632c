//! Wall-clock readings, in milliseconds since the Unix epoch.
//!
//! Every operation of the library that depends on the current time has a
//! variant that takes the time as an argument (its name ends in `_at`); the
//! variant without the suffix reads the clock here and calls it.
use vstd::prelude::*;

verus! {

/// The largest reading the clock can give: a `std::time::Duration` holds at
/// most `u64::MAX` seconds and 999,999,999 nanoseconds.
pub const MAX_CLOCK_MILLIS: u128 = 18446744073709551615999;

/// Times stored by the library stay below this bound: a clock reading plus a
/// lifetime of at most `u64::MAX` seconds.
pub const TIME_BOUND: u128 = 0x1_0000_0000_0000_0000_0000;

/// `std::time::SystemTime::now()` measured against `UNIX_EPOCH` with
/// `duration_since`: whether the reading is at or after the epoch, and its
/// distance from the epoch in whole milliseconds (`Duration::as_millis`).
/// Nothing is claimed of the reading but the range of `Duration`.
#[verifier::external_body]
fn clock_reading() -> (reading: (bool, u128))
    ensures
        reading.1 <= MAX_CLOCK_MILLIS,
{
    match std::time::SystemTime::now().duration_since(std::time::UNIX_EPOCH) {
        Ok(elapsed) => (true, elapsed.as_millis()),
        Err(before) => (false, before.duration().as_millis()),
    }
}

/// A clock reading `millis` milliseconds after (or before) the epoch as a
/// signed count, held to the range of `i64`.
pub open spec fn signed_millis(after_epoch: bool, millis: u128) -> i64 {
    if after_epoch {
        if millis > i64::MAX {
            i64::MAX
        } else {
            millis as i64
        }
    } else if millis >= 9223372036854775808 {
        i64::MIN
    } else {
        -(millis as int) as i64
    }
}

/// The clock in milliseconds since the Unix epoch, 0 when it reads earlier
/// than the epoch.
pub(crate) fn system_now_millis() -> (now: u128)
    ensures
        now <= MAX_CLOCK_MILLIS,
{
    let (after_epoch, millis) = clock_reading();
    if after_epoch {
        millis
    } else {
        0
    }
}

/// The clock as a signed count of whole milliseconds since the Unix epoch
/// (rounded toward the epoch), held to the range of `i64`. This is the value
/// that `chrono::Utc::now().timestamp_millis()` gives after the epoch;
/// chrono's `Utc::now` itself panics on a clock set before the epoch, so the
/// reading is taken from the system clock directly.
pub(crate) fn utc_now_millis() -> (now: i64)
    ensures
        exists|after_epoch: bool, millis: u128|
            millis <= MAX_CLOCK_MILLIS && now == #[trigger] signed_millis(after_epoch, millis),
{
    let (after_epoch, millis) = clock_reading();
    let now: i64 = if after_epoch {
        if millis > 9223372036854775807 {
            i64::MAX
        } else {
            millis as i64
        }
    } else if millis >= 9223372036854775808 {
        i64::MIN
    } else {
        -(millis as i64)
    };
    assert(now == signed_millis(after_epoch, millis));
    now
}

} // verus!
