//! The current time and random bits that new ids are made from.
use vstd::prelude::*;

use time::OffsetDateTime;

verus! {

/// A point in time with a UTC offset, from the `time` crate.
#[verifier::external_type_specification]
#[verifier::external_body]
pub struct ExOffsetDateTime(OffsetDateTime);

/// Calls `OffsetDateTime::now_utc` (crate `time`): the current time. Nothing is
/// claimed of the result, which depends on the clock.
#[verifier::external_body]
pub(crate) fn now_utc() -> OffsetDateTime {
    OffsetDateTime::now_utc()
}

/// Calls `OffsetDateTime::unix_timestamp_nanos` (crate `time`): nanoseconds since
/// the Unix epoch. Nothing is claimed of the result, since `OffsetDateTime` is
/// opaque here.
#[verifier::external_body]
pub(crate) fn unix_timestamp_nanos(time: &OffsetDateTime) -> i128 {
    time.unix_timestamp_nanos()
}

/// Calls `rand::random::<u64>()` (crate `rand`). Nothing is claimed of the result.
#[verifier::external_body]
pub(crate) fn random_u64() -> u64 {
    rand::random()
}

/// Calls `rand::random::<u128>()` (crate `rand`). Nothing is claimed of the result.
#[verifier::external_body]
pub(crate) fn random_u128() -> u128 {
    rand::random()
}

/// Integer division rounding toward zero.
pub open spec fn div_toward_zero(a: int, d: int) -> int {
    if a >= 0 {
        a / d
    } else {
        -((-a) / d)
    }
}

/// The millisecond timestamp that a v0 id stores for a time given in nanoseconds
/// since the Unix epoch: whole milliseconds (rounded toward zero), wrapped to 64 bits.
/// Times before the epoch wrap to large values.
pub open spec fn spec_epoch_millis(nanos: i128) -> u64 {
    div_toward_zero(nanos as int, 1_000_000) as u64
}

/// Converts nanoseconds since the Unix epoch to the millisecond timestamp of a v0 id.
pub fn epoch_millis_from_nanos(nanos: i128) -> (r: u64)
    ensures
        r == spec_epoch_millis(nanos),
{
    if nanos >= 0 {
        let q: u128 = (nanos as u128) / 1_000_000;
        q as u64
    } else {
        let magnitude: u128 = ((-(nanos + 1)) as u128) + 1;
        let q: u128 = magnitude / 1_000_000;
        let millis: i128 = -(q as i128);
        millis as u64
    }
}

} // verus!
