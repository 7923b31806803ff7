//! Variant 0 layout: name, 43 bits of milliseconds since the Unix epoch spread
//! around the UUID version and variant bits, and 57 random bits.
use vstd::prelude::*;

use crate::name_encoding::{name_mask, spec_name_mask, NameStr};
use crate::utils::{spec_uuid_and_variant_mask, uuid_and_variant_mask};

verus! {

/// Millisecond bits 15-42, stored in id bits 80-107.
pub const TIMESTAMP_FIRST_28_MASK: u64 = 0x0000_07ff_ffff_8000;

/// Millisecond bits 3-14, stored in id bits 64-75.
pub const TIMESTAMP_SECOND_12_MASK: u64 = 0x0000_0000_0000_7ff8;

/// Millisecond bits 0-2, stored in id bits 57-59.
pub const TIMESTAMP_LAST_3_MASK: u64 = 0x0000_0000_0000_0007;

/// The 57 random bits of a v0 id (bits 0-56).
pub const RANDOM_MASK: u128 = 0x00000000_0000_0000_01ff_ffffffffffff;

/// The timestamp bits of a v0 id.
pub open spec fn spec_millis_mask(millis: u64) -> u128 {
    (((millis & TIMESTAMP_FIRST_28_MASK) as u128) << 65u128) | (((millis
        & TIMESTAMP_SECOND_12_MASK) as u128) << 61u128) | (((millis & TIMESTAMP_LAST_3_MASK)
        as u128) << 57u128)
}

/// The random bits of a v0 id.
pub open spec fn spec_v0_random_bits(random: u64) -> u128 {
    (random as u128) & RANDOM_MASK
}

/// The v0 id with the given name, timestamp and random bits.
pub open spec fn spec_v0_id(name: Seq<char>, millis: u64, random: u64) -> u128 {
    spec_name_mask(name) | spec_millis_mask(millis) | spec_uuid_and_variant_mask(0)
        | spec_v0_random_bits(random)
}

/// Places the low 43 bits of the millisecond timestamp in their id positions.
///
/// The shifts move each mask's top bit to its place: bits 15-42 to 80-107,
/// bits 3-14 to 64-75 and bits 0-2 to 57-59.
pub fn millis_mask(millis_since_epoch: u64) -> (r: u128)
    ensures
        r == spec_millis_mask(millis_since_epoch),
{
    let mut mask = ((millis_since_epoch & TIMESTAMP_FIRST_28_MASK) as u128) << 65u128;
    mask = mask | (((millis_since_epoch & TIMESTAMP_SECOND_12_MASK) as u128) << 61u128);
    mask = mask | (((millis_since_epoch & TIMESTAMP_LAST_3_MASK) as u128) << 57u128);
    mask
}

/// Keeps the 57 low bits of `random`.
pub fn random_bits_mask(random: u64) -> (r: u128)
    ensures
        r == spec_v0_random_bits(random),
{
    let random = random as u128;
    random & RANDOM_MASK
}

/// Builds a v0 id from a name, a millisecond timestamp (its low 43 bits) and random bits
/// (their low 57 bits).
pub fn make_from_parts(name: NameStr, epoch_millis: u64, random: u64) -> (r: u128)
    ensures
        r == spec_v0_id(name@, epoch_millis, random),
{
    let mut id = name_mask(name);
    id = id | millis_mask(epoch_millis);
    id = id | uuid_and_variant_mask(0);
    id = id | random_bits_mask(random);
    id
}

} // verus!
