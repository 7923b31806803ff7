use tnid::name_encoding::{id_name_mask, CHAR_BIT_LENGTH, CHAR_MAPPING};
use tnid::utils::{change_variant, uuid_and_variant_mask};
use tnid::v0::{make_from_parts as v0_make_from_parts, millis_mask, random_bits_mask};
use tnid::v1::{make_from_parts as v1_make_from_parts, random_bits_mask as v1_random_bits_mask};
use tnid::{NameStr, TNIDVariant, TnidVariant};

#[test]
fn name_map_size() {
    assert_eq!(
        CHAR_MAPPING.len(),
        (2u8.pow(CHAR_BIT_LENGTH as u32) - 1) as usize
    );
}

#[test]
fn name_mask_correct_location() {
    let mask = id_name_mask("zzzz").unwrap();

    assert_eq!(mask.leading_zeros(), 0);
    assert_eq!(mask.leading_ones(), 20);

    assert_eq!(mask.trailing_zeros(), 108);
}

#[test]
fn name_map_sorts() {
    let mut entries = CHAR_MAPPING.iter();
    let mut last = entries.next().unwrap();

    for next in entries {
        assert!(last.0 < next.0);
        assert!(last.1 < next.1);

        last = next;
    }
}

#[test]
fn millis_mask_correct_location() {
    let mask = millis_mask(u64::MAX);

    assert_eq!(mask.leading_zeros(), 20);
    assert_eq!(mask.count_ones(), 43);
    assert_eq!(mask.trailing_zeros(), 57);
}

#[test]
fn random_bits_mask_correct_location() {
    let mask = random_bits_mask(u64::MAX);

    const FRONT_ZEROS: u32 = 71;
    const BACK_ONES: u32 = 57;

    assert_eq!(BACK_ONES + FRONT_ZEROS, 128);
    assert_eq!(mask.leading_zeros(), FRONT_ZEROS);
    assert_eq!(mask.count_ones(), BACK_ONES);
}

#[test]
fn random_mask() {
    let mask = v1_random_bits_mask(u128::MAX);

    assert_eq!(mask.count_ones(), 100);
    assert_eq!(mask.leading_zeros(), 20);
    assert_eq!(mask.trailing_ones(), 60);
}

#[test]
fn utils_metadata_mask_correct_location() {
    let mask = uuid_and_variant_mask(0);

    assert_eq!(mask.leading_zeros(), 48);
    assert_eq!(mask.trailing_zeros(), 63);
    assert_eq!(mask.count_ones(), 2);
}

#[test]
fn change_variant_changes_only_variant_bits() {
    let id: u128 = 0x0123_4567_89ab_cdef_0123_4567_89ab_cdef;
    let v0 = change_variant(id, TnidVariant::V0);
    let v1 = change_variant(id, TnidVariant::V1);

    // Only bits 60-61 should differ.
    let mask = 0b11u128 << 60;
    assert_eq!(id & !mask, v0 & !mask);
    assert_eq!(id & !mask, v1 & !mask);
    assert_ne!(v0 & mask, v1 & mask);
}

#[test]
fn from_u8_no_panic() {
    for i in u8::MIN..=u8::MAX {
        TNIDVariant::from_u8(i);
    }
}

#[test]
fn variant_from_u8_keeps_low_two_bits() {
    assert_eq!(TNIDVariant::from_u8(0), TNIDVariant::V0);
    assert_eq!(TNIDVariant::from_u8(5), TNIDVariant::V1);
    assert_eq!(TNIDVariant::from_u8(6), TNIDVariant::V2);
    assert_eq!(TNIDVariant::from_u8(255), TNIDVariant::V3);
    for v in [TNIDVariant::V0, TNIDVariant::V1, TNIDVariant::V2, TNIDVariant::V3] {
        assert_eq!(TNIDVariant::from_u8(v.as_u8()), v);
    }
}

#[test]
fn variant_from_id_reads_bits_60_and_61() {
    assert_eq!(TNIDVariant::from_id(0), TNIDVariant::V0);
    assert_eq!(TNIDVariant::from_id(2u128 << 60), TNIDVariant::V2);
    assert_eq!(TNIDVariant::from_id(u128::MAX), TNIDVariant::V3);
}

#[test]
fn uuid_and_variant_mask_values() {
    assert_eq!(uuid_and_variant_mask(0), 0x00000000_0000_8000_8000_000000000000);
    assert_eq!(uuid_and_variant_mask(3), 0x00000000_0000_8000_b000_000000000000);
}

#[test]
fn change_variant_sets_the_variant() {
    let id: u128 = 0x0123_4567_89ab_cdef_0123_4567_89ab_cdef;
    assert_eq!(
        TNIDVariant::from_id(change_variant(id, TNIDVariant::V3)),
        TNIDVariant::V3
    );
    assert_eq!(
        change_variant(change_variant(id, TNIDVariant::V2), TNIDVariant::from_id(id)),
        id
    );
}

#[test]
fn v0_make_from_parts_known_value() {
    let name = NameStr::new_const("test");
    let id = v0_make_from_parts(name, 0, 0);
    assert_eq!(id >> 108, 0xcab19);
    assert_eq!(id, 0xcab19000_0000_8000_8000_000000000000);
    let id = v0_make_from_parts(name, 1, 1);
    assert_eq!(id & ((1u128 << 58) - 1), (1u128 << 57) | 1);
}

#[test]
fn v1_make_from_parts_known_value() {
    let name = NameStr::new_const("test");
    let id = v1_make_from_parts(name, u128::MAX);
    assert_eq!(id, 0xcab19fff_ffff_8fff_9fff_ffffffffffff);
}

#[test]
fn millis_mask_places_each_part() {
    assert_eq!(millis_mask(0b111), 0b111u128 << 57);
    assert_eq!(millis_mask(0b1000), 1u128 << 64);
    assert_eq!(millis_mask(1 << 15), 1u128 << 80);
    // Bits above 43 are dropped.
    assert_eq!(millis_mask(1 << 43), 0);
}

#[test]
fn empty_name_has_no_mask() {
    assert_eq!(id_name_mask(""), None);
    assert_eq!(id_name_mask("zzzz"), Some(0xFFFFFu128 << 108));
    assert_eq!(id_name_mask("zzzzz"), None);
}
