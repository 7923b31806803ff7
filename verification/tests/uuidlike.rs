use tnid::{ParseUuidStringError, UUIDLike, UuidLike};

#[test]
fn uuidlike_parse_lowercase() {
    let result = UUIDLike::parse_uuid_string("ffffffff-ffff-ffff-ffff-ffffffffffff");
    assert_eq!(result.unwrap().as_u128(), u128::MAX);
}

#[test]
fn uuidlike_parse_uppercase() {
    let result = UUIDLike::parse_uuid_string("FFFFFFFF-FFFF-FFFF-FFFF-FFFFFFFFFFFF");
    assert_eq!(result.unwrap().as_u128(), u128::MAX);
}

#[test]
fn uuidlike_parse_mixed_case() {
    let result = UUIDLike::parse_uuid_string("AaBbCcDd-1234-5678-90aB-cDeF01234567");
    assert!(result.is_ok());
}

#[test]
fn uuidlike_parse_all_zeros() {
    let result = UUIDLike::parse_uuid_string("00000000-0000-0000-0000-000000000000");
    assert_eq!(result.unwrap().as_u128(), 0);
}

#[test]
fn uuid_string_known_value() {
    let id = UuidLike::new(0x0123_4567_89ab_cdef_0123_4567_89ab_cdef);
    assert_eq!(id.to_uuid_string(false), "01234567-89ab-cdef-0123-456789abcdef");
    assert_eq!(id.to_uuid_string(true), "01234567-89AB-CDEF-0123-456789ABCDEF");
    assert_eq!(id.to_uuid_string_cased(true), "01234567-89AB-CDEF-0123-456789ABCDEF");
}

#[test]
fn uuid_string_roundtrip() {
    let value = 0xd6157329_4640_8e30_9f8a_b5c7d2e1f0a3u128;
    for upper in [false, true] {
        let s = UuidLike::new(value).to_uuid_string(upper);
        assert_eq!(UuidLike::parse_uuid_string(&s).unwrap().as_u128(), value);
    }
}

#[test]
fn uuid_parse_errors() {
    assert!(matches!(
        UuidLike::parse_uuid_string("not-a-uuid"),
        Err(ParseUuidStringError::WrongLength(10))
    ));
    assert!(matches!(
        UuidLike::parse_uuid_string("ffffffffxffff-ffff-ffff-ffffffffffff"),
        Err(ParseUuidStringError::MissingHyphen(8))
    ));
    assert!(matches!(
        UuidLike::parse_uuid_string("gfffffff-ffff-ffff-ffff-ffffffffffff"),
        Err(ParseUuidStringError::InvalidHexChar {
            position: 0,
            byte: b'g'
        })
    ));
}
