//! The wall clock, in milliseconds since the Unix epoch.
use vstd::prelude::*;
use crate::Insertion;

verus! {

/// Relies on `SystemTime::elapsed` on `UNIX_EPOCH`: the milliseconds since the epoch, or
/// zero for a clock set before it. Nothing is promised of the value.
#[verifier::external_body]
fn clock_millis() -> (r: u128) {
    match std::time::UNIX_EPOCH.elapsed() {
        Ok(d) => d.as_millis(),
        Err(_) => 0,
    }
}

/// The current time in milliseconds since the epoch, saturated at `u64::MAX`.
pub fn time_now_as_millis() -> u64 {
    let m = clock_millis();
    if m > u64::MAX as u128 {
        u64::MAX
    } else {
        m as u64
    }
}

/// The current time in milliseconds since the epoch, saturated at `i64::MAX`.
pub fn now_as_timestamp() -> (r: i64)
    ensures
        r >= 0,
{
    let m = clock_millis();
    if m > i64::MAX as u128 {
        i64::MAX
    } else {
        m as i64
    }
}

/// The timestamp an insertion is stored with, given the time now.
pub open spec fn stamped(insert: Insertion, now: i64) -> i64 {
    match insert.timestamp {
        Some(t) => t,
        None => now,
    }
}

/// The insertion's own timestamp, or the time now where it has none.
pub fn insertion_timestamp(insert: &Insertion) -> (r: i64)
    ensures
        insert.timestamp matches Some(t) ==> r == t,
        insert.timestamp is None ==> r >= 0,
{
    match insert.timestamp {
        Some(v) => v,
        None => now_as_timestamp(),
    }
}

} // verus!
