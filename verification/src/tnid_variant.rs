//! The four TNID variants, stored in bits 60-61 of the id.
use vstd::prelude::*;

use crate::bits::{lemma_and_le};

verus! {

/// The 4 possible TNID variants.
///
/// Similar to UUID variants, TNID variants decide how the data bits are used.
#[derive(Debug, Clone, Copy, PartialEq, Eq)]
pub enum TNIDVariant {
    /// V0 is most like UUIDv7, and is meant to be time-sortable.
    V0,
    /// V1 is most like UUIDv4, and is meant to maximize entropy (randomness).
    V1,
    /// V2 is undefined but reserved for future use.
    V2,
    /// V3 is undefined but reserved for future use.
    V3,
}

/// The name the typed API uses for [`TNIDVariant`].
pub type TnidVariant = TNIDVariant;

/// The variant that a 2-bit value (0-3) denotes.
pub open spec fn spec_variant_from_bits(b: int) -> TNIDVariant {
    if b == 0 {
        TNIDVariant::V0
    } else if b == 1 {
        TNIDVariant::V1
    } else if b == 2 {
        TNIDVariant::V2
    } else {
        TNIDVariant::V3
    }
}

/// The 2-bit value of a variant.
pub open spec fn spec_variant_value(v: TNIDVariant) -> u8 {
    match v {
        TNIDVariant::V0 => 0,
        TNIDVariant::V1 => 1,
        TNIDVariant::V2 => 2,
        TNIDVariant::V3 => 3,
    }
}

/// The TNID variant bits (60-61) of an id.
pub open spec fn spec_variant_bits(id: u128) -> u128 {
    (id >> 60u128) & 3
}

/// The TNID variant of an id.
pub open spec fn spec_variant_of_id(id: u128) -> TNIDVariant {
    spec_variant_from_bits(spec_variant_bits(id) as int)
}

impl TNIDVariant {
    /// Converts a u8 to a [`TNIDVariant`], using only its bottom 2 bits.
    pub fn from_u8(variant_bits: u8) -> (r: TNIDVariant)
        ensures
            r == spec_variant_from_bits((variant_bits & 3) as int),
    {
        let bits = variant_bits & 0b11;
        assert(bits < 4) by (bit_vector)
            requires
                bits == variant_bits & 3u8,
        ;
        match bits {
            0 => TNIDVariant::V0,
            1 => TNIDVariant::V1,
            2 => TNIDVariant::V2,
            _ => TNIDVariant::V3,
        }
    }

    /// Returns the u8 representation of this variant.
    pub fn as_u8(&self) -> (r: u8)
        ensures
            r == spec_variant_value(*self),
            r < 4,
    {
        match self {
            TNIDVariant::V0 => 0,
            TNIDVariant::V1 => 1,
            TNIDVariant::V2 => 2,
            TNIDVariant::V3 => 3,
        }
    }

    /// The variant stored in bits 60-61 of `id`.
    pub fn from_id(id: u128) -> (r: TNIDVariant)
        ensures
            r == spec_variant_of_id(id),
    {
        let bits = ((id >> 60u128) & 3) as u8;
        assert((id >> 60u128) & 3 < 4) by { lemma_and_le(id >> 60u128, 3); }
        assert(bits & 3u8 == bits) by (bit_vector)
            requires
                bits < 4,
        ;
        TNIDVariant::from_u8(bits)
    }
}

/// Law: the variant of a 2-bit value gives that value back.
pub proof fn lemma_variant_value_roundtrip(b: int)
    requires
        0 <= b < 4,
    ensures
        spec_variant_value(spec_variant_from_bits(b)) == b,
{
}

/// Law: converting a variant to its value and back gives the variant.
pub proof fn lemma_variant_from_value(v: TNIDVariant)
    ensures
        spec_variant_from_bits(spec_variant_value(v) as int) == v,
{
}

} // verus!
