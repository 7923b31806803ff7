//! Variant 1 layout: name and 100 random bits around the UUID version and variant bits.
use vstd::prelude::*;

use crate::name_encoding::{name_mask, spec_name_mask, NameStr};
use crate::utils::{spec_uuid_and_variant_mask, uuid_and_variant_mask};

verus! {

/// The 100 random bits of a v1 id.
pub const RANDOM_MASK: u128 = 0x00000fff_ffff_0fff_0fff_ffffffffffff;

/// The random bits of a v1 id.
pub open spec fn spec_v1_random_bits(random: u128) -> u128 {
    random & RANDOM_MASK
}

/// The v1 id with the given name and random bits.
pub open spec fn spec_v1_id(name: Seq<char>, random: u128) -> u128 {
    spec_name_mask(name) | spec_uuid_and_variant_mask(1) | spec_v1_random_bits(random)
}

/// Keeps the 100 bits of `random` that a v1 id uses.
pub fn random_bits_mask(random: u128) -> (r: u128)
    ensures
        r == spec_v1_random_bits(random),
{
    random & RANDOM_MASK
}

/// Builds a v1 id from a name and random bits (100 of them are used).
pub fn make_from_parts(name: NameStr, random: u128) -> (r: u128)
    ensures
        r == spec_v1_id(name@, random),
{
    let mut id = name_mask(name);
    id = id | uuid_and_variant_mask(1);
    id = id | random_bits_mask(random);
    id
}

} // verus!
