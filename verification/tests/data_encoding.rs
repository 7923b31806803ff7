use tnid::data_encoding::{
    expand_data_bits, extract_data_bits, id_data_to_string, string_to_id_data, CHAR_MAPPING,
    DATA_BIT_NUM, DATA_CHAR_ENCODING_LEN, LEFT_DATA_SECTION_MASK, MIDDLE_DATA_SECTION_MASK,
    RIGHT_DATA_SECTION_MASK,
};
use tnid::DataEncodingError;

const COMPLETE_DATA_MASK: u128 =
    RIGHT_DATA_SECTION_MASK | MIDDLE_DATA_SECTION_MASK | LEFT_DATA_SECTION_MASK;

#[test]
fn data_extract_correctly() {
    let extract = extract_data_bits(u128::MAX);
    assert_eq!(extract.leading_zeros(), 26);
    assert_eq!((extract).count_ones(), DATA_BIT_NUM.into());

    assert_eq!((COMPLETE_DATA_MASK).count_ones(), DATA_BIT_NUM.into());

    let extract = extract_data_bits(COMPLETE_DATA_MASK);
    assert_eq!(extract.leading_zeros(), 26);
    assert_eq!((extract).count_ones(), DATA_BIT_NUM.into());

    assert_eq!((COMPLETE_DATA_MASK).count_ones(), DATA_BIT_NUM.into());
}

#[test]
fn data_encodes_correctly() {
    let encoded = id_data_to_string(COMPLETE_DATA_MASK);
    assert_eq!(encoded.len(), DATA_CHAR_ENCODING_LEN.into());
    assert_eq!(encoded, String::from("zzzzzzzzzzzzzzzzz"));

    let encoded = id_data_to_string(0u128);
    assert_eq!(encoded.len(), DATA_CHAR_ENCODING_LEN.into());
    assert_eq!(encoded, String::from("-----------------"));
}

#[test]
fn expand_data_bits_roundtrip() {
    let original = COMPLETE_DATA_MASK;
    let extracted = extract_data_bits(original);
    let expanded = expand_data_bits(extracted);
    assert_eq!(expanded, original);
}

#[test]
fn string_to_id_data_roundtrip() {
    let original_id = 0x00000abc_def1_2345_6789_abcdef123456u128;
    let string = id_data_to_string(original_id);
    let decoded = string_to_id_data(&string).unwrap();
    assert_eq!(decoded, extract_data_bits(original_id));
}

#[test]
fn data_string_of_one_value_per_character() {
    // Each character holds 6 bits, most significant first.
    let compact: u128 = 1u128 << 96 | 63;
    let id = expand_data_bits(compact);
    assert_eq!(id_data_to_string(id), "0---------------z");
}

#[test]
fn data_string_wrong_length_is_refused() {
    assert_eq!(
        string_to_id_data("abc"),
        Err(DataEncodingError::WrongLength(3))
    );
    assert_eq!(
        string_to_id_data("zzzzzzzzzzzzzzzzzz"),
        Err(DataEncodingError::WrongLength(18))
    );
}

#[test]
fn data_string_invalid_char_is_refused() {
    assert_eq!(
        string_to_id_data("zzzzzzzz.zzzzzzzz"),
        Err(DataEncodingError::InvalidChar {
            position: 8,
            byte: b'.'
        })
    );
}

#[test]
fn data_char_mapping_is_sorted_by_byte() {
    for (i, (value, byte)) in CHAR_MAPPING.iter().enumerate() {
        assert_eq!(*value as usize, i);
        if i > 0 {
            assert!(CHAR_MAPPING[i - 1].1 < *byte);
        }
    }
}

#[test]
fn data_string_order_follows_value_order() {
    let a = expand_data_bits(0x1234);
    let b = expand_data_bits(0x1235);
    assert!(id_data_to_string(a) < id_data_to_string(b));
}
