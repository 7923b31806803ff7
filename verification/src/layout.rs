//! The TNID bit layout: which 128-bit values are TNIDs, and how ids are put together.
//!
//! Bits 108-127 hold the name, bits 76-79 the UUID version (8), bits 62-63 the UUID
//! variant (`0b10`), bits 60-61 the TNID variant, and the other 100 bits the payload.
use vstd::prelude::*;

use crate::data_encoding::{
    spec_expand_data_bits, spec_extract_data_bits, COMPACT_DATA_MASK,
};
use crate::name_encoding::{
    is_valid_name, lemma_name_mask_field, lemma_name_roundtrip, name_bits_well_formed,
    name_field, spec_name_mask,
};
use crate::tnid_variant::{spec_variant_of_id, TNIDVariant};
use crate::utils::UUID_V8_MASK;
use crate::v0::spec_v0_id;
use crate::v1::spec_v1_id;

verus! {

/// The name field (top 20 bits).
pub const NAME_BITS_MASK: u128 = 0xfffff000_0000_0000_0000_000000000000;

/// The UUID version nibble and the two UUID variant bits.
pub const UUID_BITS_MASK: u128 = 0x00000000_0000_f000_c000_000000000000;

/// A TNID: the UUID version nibble is 8 and the UUID variant bits are `0b10`, and the
/// name field holds 1-4 codes followed only by nulls.
pub open spec fn is_tnid_bits(id: u128) -> bool {
    &&& id & UUID_BITS_MASK == UUID_V8_MASK
    &&& name_bits_well_formed(id)
}

/// The name field of `id` holds the name `n`.
pub open spec fn has_name(id: u128, n: Seq<char>) -> bool {
    id >> 108u128 == name_field(n) as u128
}

/// The UUID version nibble is exactly 8 and the UUID variant bits are exactly `0b10`.
pub open spec fn is_exact_uuid_v8(id: u128) -> bool {
    id & UUID_BITS_MASK == UUID_V8_MASK
}

/// The id with name `n`, the UUIDv8 bits, and the data bits `data` (compacted).
pub open spec fn spec_assemble(n: Seq<char>, data: u128) -> u128 {
    spec_name_mask(n) | UUID_V8_MASK | spec_expand_data_bits(data)
}

/// Comparing the name field by mask is comparing it by shift.
pub proof fn lemma_name_bits_match(id: u128, n: Seq<char>)
    requires
        is_valid_name(n),
    ensures
        (id & NAME_BITS_MASK == spec_name_mask(n)) == has_name(id, n),
{
    lemma_name_mask_field(n);
    let f = name_field(n) as u128;
    assert((id & 0xfffff000_0000_0000_0000_000000000000u128 == f << 108u128) == (id >> 108u128
        == f)) by (bit_vector)
        requires
            f < 0x100000,
    ;
}

/// Law: an id put together from a valid name and data bits is a TNID with that name,
/// exact UUIDv8 bits, and the low 102 bits of the data as its data.
pub proof fn lemma_assemble(n: Seq<char>, data: u128)
    requires
        is_valid_name(n),
    ensures
        is_tnid_bits(spec_assemble(n, data)),
        has_name(spec_assemble(n, data), n),
        is_exact_uuid_v8(spec_assemble(n, data)),
        spec_extract_data_bits(spec_assemble(n, data)) == data & COMPACT_DATA_MASK,
{
    lemma_name_mask_field(n);
    let f = name_field(n) as u128;
    let r = 0x00000000_0000_0000_3fff_ffffffffffffu128;
    let m = 0x00000000_0000_0fff_0000_000000000000u128;
    let l = 0x00000fff_ffff_0000_0000_000000000000u128;
    let e = (data & r) | ((data & (m >> 2u128)) << 2u128) | ((data & (l >> 6u128)) << 6u128);
    let x = (f << 108u128) | 0x00000000_0000_8000_8000_000000000000u128 | e;
    assert(x >> 108u128 == f && x & 0x00000000_0000_8000_8000_000000000000u128
        == 0x00000000_0000_8000_8000_000000000000u128 && x
        & 0x00000000_0000_f000_c000_000000000000u128
        == 0x00000000_0000_8000_8000_000000000000u128 && (x & r) | ((x & m) >> 2u128) | ((x
        & l) >> 6u128) == data & 0x0000003f_ffff_ffff_ffff_ffffffffffffu128) by (bit_vector)
        requires
            f < 0x100000,
            r == 0x00000000_0000_0000_3fff_ffffffffffffu128,
            m == 0x00000000_0000_0fff_0000_000000000000u128,
            l == 0x00000fff_ffff_0000_0000_000000000000u128,
            e == (data & r) | ((data & (m >> 2u128)) << 2u128) | ((data & (l >> 6u128))
                << 6u128),
            x == (f << 108u128) | 0x00000000_0000_8000_8000_000000000000u128 | e,
    ;
    lemma_name_roundtrip(n, spec_assemble(n, data));
}

/// Law: a TNID is put back together from its name and data bits.
pub proof fn lemma_assemble_extract(id: u128, n: Seq<char>)
    requires
        is_valid_name(n),
        is_tnid_bits(id),
        has_name(id, n),
    ensures
        spec_assemble(n, spec_extract_data_bits(id)) == id,
{
    lemma_name_mask_field(n);
    let f = name_field(n) as u128;
    let r = 0x00000000_0000_0000_3fff_ffffffffffffu128;
    let m = 0x00000000_0000_0fff_0000_000000000000u128;
    let l = 0x00000fff_ffff_0000_0000_000000000000u128;
    let d = (id & r) | ((id & m) >> 2u128) | ((id & l) >> 6u128);
    let e = (d & r) | ((d & (m >> 2u128)) << 2u128) | ((d & (l >> 6u128)) << 6u128);
    assert((f << 108u128) | 0x00000000_0000_8000_8000_000000000000u128 | e == id) by (bit_vector)
        requires
            f < 0x100000,
            id >> 108u128 == f,
            id & 0x00000000_0000_f000_c000_000000000000u128
                == 0x00000000_0000_8000_8000_000000000000u128,
            r == 0x00000000_0000_0000_3fff_ffffffffffffu128,
            m == 0x00000000_0000_0fff_0000_000000000000u128,
            l == 0x00000fff_ffff_0000_0000_000000000000u128,
            d == (id & r) | ((id & m) >> 2u128) | ((id & l) >> 6u128),
            e == (d & r) | ((d & (m >> 2u128)) << 2u128) | ((d & (l >> 6u128)) << 6u128),
    ;
}

/// Law: a v0 id built from a valid name is a TNID of variant 0 with that name and
/// exact UUIDv8 bits.
pub proof fn lemma_v0_id_valid(n: Seq<char>, millis: u64, random: u64)
    requires
        is_valid_name(n),
    ensures
        is_tnid_bits(spec_v0_id(n, millis, random)),
        has_name(spec_v0_id(n, millis, random), n),
        is_exact_uuid_v8(spec_v0_id(n, millis, random)),
        spec_variant_of_id(spec_v0_id(n, millis, random)) == TNIDVariant::V0,
{
    lemma_name_mask_field(n);
    let f = name_field(n) as u128;
    let x = spec_v0_id(n, millis, random);
    assert(x >> 108u128 == f && x & 0x00000000_0000_8000_8000_000000000000u128
        == 0x00000000_0000_8000_8000_000000000000u128 && x
        & 0x00000000_0000_f000_c000_000000000000u128
        == 0x00000000_0000_8000_8000_000000000000u128 && (x >> 60u128) & 3 == 0) by (bit_vector)
        requires
            f < 0x100000,
            x == (f << 108u128) | ((((millis & 0x0000_07ff_ffff_8000u64) as u128) << 65u128) | (((
            millis & 0x0000_0000_0000_7ff8u64) as u128) << 61u128) | (((millis
                & 0x0000_0000_0000_0007u64) as u128) << 57u128)) | (
            0x00000000_0000_8000_8000_000000000000u128 | ((0u8 as u128) << 60u128)) | ((
            random as u128) & 0x00000000_0000_0000_01ff_ffffffffffffu128),
    ;
    lemma_name_roundtrip(n, x);
}

/// Law: a v1 id built from a valid name is a TNID of variant 1 with that name and
/// exact UUIDv8 bits.
pub proof fn lemma_v1_id_valid(n: Seq<char>, random: u128)
    requires
        is_valid_name(n),
    ensures
        is_tnid_bits(spec_v1_id(n, random)),
        has_name(spec_v1_id(n, random), n),
        is_exact_uuid_v8(spec_v1_id(n, random)),
        spec_variant_of_id(spec_v1_id(n, random)) == TNIDVariant::V1,
{
    lemma_name_mask_field(n);
    let f = name_field(n) as u128;
    let x = spec_v1_id(n, random);
    assert(x >> 108u128 == f && x & 0x00000000_0000_8000_8000_000000000000u128
        == 0x00000000_0000_8000_8000_000000000000u128 && x
        & 0x00000000_0000_f000_c000_000000000000u128
        == 0x00000000_0000_8000_8000_000000000000u128 && (x >> 60u128) & 3 == 1) by (bit_vector)
        requires
            f < 0x100000,
            x == (f << 108u128) | (0x00000000_0000_8000_8000_000000000000u128 | ((1u8 as u128)
                << 60u128)) | (random & 0x00000fff_ffff_0fff_0fff_ffffffffffffu128),
    ;
    lemma_name_roundtrip(n, x);
}

/// Law: v0 ids are time-ordered. With the same name, an id made at an earlier
/// millisecond (below 2^43, that is before the year 2248) is smaller than one made
/// at a later millisecond, whatever their random bits.
pub proof fn lemma_v0_time_ordered(n: Seq<char>, m1: u64, r1: u64, m2: u64, r2: u64)
    requires
        is_valid_name(n),
        m1 < m2 < 0x800_0000_0000,
    ensures
        spec_v0_id(n, m1, r1) < spec_v0_id(n, m2, r2),
{
    lemma_name_mask_field(n);
    let f = name_field(n) as u128;
    let x1 = spec_v0_id(n, m1, r1);
    let x2 = spec_v0_id(n, m2, r2);
    assert(x1 < x2) by (bit_vector)
        requires
            m1 < m2,
            m2 < 0x800_0000_0000u64,
            x1 == (f << 108u128) | ((((m1 & 0x0000_07ff_ffff_8000u64) as u128) << 65u128) | (((m1
                & 0x0000_0000_0000_7ff8u64) as u128) << 61u128) | (((m1
                & 0x0000_0000_0000_0007u64) as u128) << 57u128)) | (
            0x00000000_0000_8000_8000_000000000000u128 | ((0u8 as u128) << 60u128)) | ((r1 as u128)
                & 0x00000000_0000_0000_01ff_ffffffffffffu128),
            x2 == (f << 108u128) | ((((m2 & 0x0000_07ff_ffff_8000u64) as u128) << 65u128) | (((m2
                & 0x0000_0000_0000_7ff8u64) as u128) << 61u128) | (((m2
                & 0x0000_0000_0000_0007u64) as u128) << 57u128)) | (
            0x00000000_0000_8000_8000_000000000000u128 | ((0u8 as u128) << 60u128)) | ((r2 as u128)
                & 0x00000000_0000_0000_01ff_ffffffffffffu128),
    ;
}

/// Ids that agree outside the payload and the TNID variant agree on being TNIDs and
/// on their name.
pub proof fn lemma_same_kept_bits(x: u128, y: u128, n: Seq<char>)
    requires
        x & 0xfffff000_0000_f000_c000_000000000000u128 == y
            & 0xfffff000_0000_f000_c000_000000000000u128,
    ensures
        is_tnid_bits(x) == is_tnid_bits(y),
        has_name(x, n) == has_name(y, n),
        is_exact_uuid_v8(x) == is_exact_uuid_v8(y),
{
    assert(x >> 108u128 == y >> 108u128 && x & 0x00000000_0000_8000_8000_000000000000u128 == y
        & 0x00000000_0000_8000_8000_000000000000u128 && x
        & 0x00000000_0000_f000_c000_000000000000u128 == y
        & 0x00000000_0000_f000_c000_000000000000u128) by (bit_vector)
        requires
            x & 0xfffff000_0000_f000_c000_000000000000u128 == y
                & 0xfffff000_0000_f000_c000_000000000000u128,
    ;
    assert((x >> 123u128) & 31 == ((x >> 108u128) >> 15u128) & 31 && (y >> 123u128) & 31 == ((y
        >> 108u128) >> 15u128) & 31 && (x >> 118u128) & 31 == ((x >> 108u128) >> 10u128) & 31 && (y
        >> 118u128) & 31 == ((y >> 108u128) >> 10u128) & 31 && (x >> 113u128) & 31 == ((x
        >> 108u128) >> 5u128) & 31 && (y >> 113u128) & 31 == ((y >> 108u128) >> 5u128) & 31)
        by (bit_vector);
}

} // verus!
