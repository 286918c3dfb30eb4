//! The clock.

use vstd::prelude::*;

verus! {

/// Reads the clock with `SystemTime::now` and gives the milliseconds since the
/// Unix epoch, or `None` where the clock stands before the epoch. Nothing is
/// promised of the value.
#[verifier::external_body]
fn millis_since_epoch() -> Option<u128> {
    std::time::SystemTime::now().duration_since(std::time::UNIX_EPOCH).ok().map(|d| d.as_millis())
}

/// The current Unix time in milliseconds: the timestamp of whatever the clock
/// reads. What it reads is not for this crate to say.
pub fn unix_timestamp_millis() -> (stamp: i64)
    ensures
        exists|reading: Option<u128>| stamp == reading_timestamp(reading),
{
    let reading = millis_since_epoch();
    let stamp = timestamp_from_reading(reading);
    assert(stamp == reading_timestamp(reading));
    stamp
}

/// The timestamp that a reading of the clock stands for: the milliseconds
/// since the Unix epoch, cut to their lower 64 bits, and zero where the clock
/// stands before the epoch.
pub open spec fn reading_timestamp(reading: Option<u128>) -> i64 {
    match reading {
        Some(millis) => millis as i64,
        None => 0,
    }
}

/// Turns a reading of the clock into a timestamp.
pub fn timestamp_from_reading(reading: Option<u128>) -> (stamp: i64)
    ensures
        stamp == reading_timestamp(reading),
        reading.is_some() && reading.unwrap() <= i64::MAX ==> stamp == reading.unwrap(),
{
    match reading {
        Some(millis) => #[verifier::truncate]
        (millis as i64),
        None => 0,
    }
}

} // verus!
