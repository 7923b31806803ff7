use time::{Duration, OffsetDateTime};
use tnid::encryption::EncryptionKey;
use tnid::filter::Blocklist;
use tnid::utils::UUID_V8_MASK;
use tnid::{Case, NameError, NameStr, ParseTnidError, Tnid, TnidName, TnidVariant, TNID};

#[derive(Debug, PartialEq)]
struct TestId;
impl TnidName for TestId {
    fn id_name() -> NameStr<'static> {
        NameStr::new_const("test")
    }
}

#[derive(Debug, PartialEq)]
struct User;
impl TnidName for User {
    fn id_name() -> NameStr<'static> {
        NameStr::new_const("user")
    }
}

#[test]
fn lib_variant0_is_k_sortable() {
    let mut epoch_ms: u64 = 1_700_000_000_000;
    let random: u64 = 42;

    let mut last_id: Tnid<TestId> = Tnid::new_v0_with_parts(epoch_ms, random);

    for _ in 1..10_000 {
        epoch_ms += 1;
        let id: Tnid<TestId> = Tnid::new_v0_with_parts(epoch_ms, random);

        assert!(last_id.as_u128() < id.as_u128());
        assert!(last_id.to_tnid_string() < id.to_tnid_string());

        last_id = id;
    }
}

#[test]
fn variant0_with_time_is_k_sortable() {
    let mut test_time = OffsetDateTime::now_utc();
    let mut last_id: TNID<TestId> = TNID::new_v0_with_time(test_time);

    for _ in 1..10_000 {
        test_time += Duration::milliseconds(1);
        let id: TNID<TestId> = TNID::new_v0_with_time(test_time);

        assert!(last_id.as_u128() < id.as_u128());
        assert!(last_id.as_tnid_string() < id.as_tnid_string());

        last_id = id;
    }
}

#[test]
fn lib_tnid_variant_returns_v0() {
    let id: Tnid<TestId> = Tnid::new_v0_with_parts(1_700_000_000_000, 42);
    assert_eq!(id.variant(), TnidVariant::V0);

    let id: TNID<TestId> = TNID::new_v0();
    assert_eq!(id.variant(), TnidVariant::V0);
}

#[test]
fn lib_encryption_bidirectional() {
    let key = EncryptionKey::new([1, 2, 3, 4, 5, 6, 7, 8, 9, 10, 11, 12, 13, 14, 15, 16]);

    let original: Tnid<TestId> = Tnid::new_v0_with_parts(1_700_000_000_000, 42);
    assert_eq!(original.variant(), TnidVariant::V0);

    let encrypted = original
        .encrypt_v0_to_v1(&key)
        .expect("encryption should succeed");
    assert_eq!(encrypted.variant(), TnidVariant::V1);

    let decrypted = encrypted
        .decrypt_v1_to_v0(&key)
        .expect("decryption should succeed");
    assert_eq!(decrypted.variant(), TnidVariant::V0);

    assert_eq!(decrypted.as_u128(), original.as_u128());
}

#[test]
fn encryption_bidirectional_with_raw_key() {
    let secret = [1, 2, 3, 4, 5, 6, 7, 8, 9, 10, 11, 12, 13, 14, 15, 16];

    let original: TNID<TestId> = TNID::new_v0();
    assert_eq!(original.variant(), TnidVariant::V0);

    let encrypted = original.encrypt_v0_to_v1(secret).unwrap();
    assert_eq!(encrypted.variant(), TnidVariant::V1);

    let decrypted = encrypted.decrypt_v1_to_v0(secret).unwrap();
    assert_eq!(decrypted.variant(), TnidVariant::V0);

    assert_eq!(decrypted.as_u128(), original.as_u128());
}

#[test]
fn encryption_keeps_name_and_v1_passes_through() {
    let key = EncryptionKey::new([7u8; 16]);
    let original: Tnid<TestId> = Tnid::new_v0_with_parts(1_700_000_000_000, 42);
    let encrypted = original.encrypt_v0_to_v1(&key).unwrap();
    assert_ne!(encrypted.as_u128(), original.as_u128());
    assert_eq!(encrypted.as_u128() >> 108, original.as_u128() >> 108);
    assert_eq!(encrypted.encrypt_v0_to_v1(&key).unwrap().as_u128(), encrypted.as_u128());
    assert_eq!(original.decrypt_v1_to_v0(&key).unwrap().as_u128(), original.as_u128());
}

#[test]
fn lib_parse_tnid_string_roundtrip() {
    let original: Tnid<TestId> = Tnid::new_v0_with_parts(1_700_000_000_000, 42);
    let tnid_string = original.to_tnid_string();
    let parsed = Tnid::<TestId>::parse_tnid_string(&tnid_string)
        .expect("generated TNID string should parse");
    assert_eq!(parsed.as_u128(), original.as_u128());

    let original: TNID<TestId> = TNID::new_v0();
    let tnid_string = original.as_tnid_string();
    let parsed = TNID::<TestId>::parse_tnid_string(&tnid_string).unwrap();
    assert_eq!(parsed.as_u128(), original.as_u128());
}

#[test]
fn lib_parse_tnid_string_invalid_name() {
    let result = Tnid::<TestId>::parse_tnid_string("wrong.abc123xyz");
    assert!(result.is_err());

    let result = TNID::<TestId>::parse_tnid_string("wrong.abc123xyz");
    assert!(result.is_none());
}

#[test]
fn lib_parse_tnid_string_no_separator() {
    let result = Tnid::<TestId>::parse_tnid_string("testabc123xyz");
    assert!(result.is_err());

    let result = TNID::<TestId>::parse_tnid_string("testabc123xyz");
    assert!(result.is_none());
}

#[test]
fn parse_tnid_string_errors_in_check_order() {
    assert_eq!(
        Tnid::<TestId>::parse_tnid_string("wrong.abc123xyz"),
        Err(ParseTnidError::InvalidLength(15))
    );
    assert_eq!(
        Tnid::<TestId>::parse_tnid_string("testabc123xyzabc123xyz"),
        Err(ParseTnidError::MissingSeparator)
    );
    assert_eq!(
        Tnid::<TestId>::parse_tnid_string("post.Br2flcNDfF6LYICnT"),
        Err(ParseTnidError::NameMismatch {
            expected: "test",
            found: String::from("post")
        })
    );
    assert!(matches!(
        Tnid::<TestId>::parse_tnid_string("test.Br2flcNDfF6LYIC.T"),
        Err(ParseTnidError::InvalidDataEncoding(_))
    ));
}

#[test]
fn readme_examples_parse() {
    assert!(Tnid::<User>::parse_tnid_string("user.Br2flcNDfF6LYICnT").is_ok());
    assert!(Tnid::<User>::parse_tnid_string("post.Br2flcNDfF6LYICnT").is_err());
    assert!(Tnid::<User>::parse_tnid_string("not-a-tnid").is_err());
    let id: Tnid<User> = "user.Br2flcNDfF6LYICnT".parse().unwrap();
    assert_eq!(id.name(), "user");
    let id: Tnid<User> = "d6157329-4640-8e30-9f8a-b5c7d2e1f0a3".parse().unwrap();
    assert_eq!(id.name_hex(), "d6157");
    assert!("user.Br2fl".parse::<Tnid<User>>().is_err());
}

#[test]
fn from_u128_malformed_name_bits_returns_invalid_name_bits() {
    let a: u128 = 6;
    let b: u128 = 7;
    let c: u128 = 8;

    let name_bits = (a << 123) | (b << 113) | (c << 108);

    let id = name_bits | UUID_V8_MASK;

    let result = Tnid::<TestId>::from_u128(id);
    assert!(
        matches!(result, Err(ParseTnidError::InvalidNameBits)),
        "expected InvalidNameBits, got {:?}",
        result
    );
}

#[test]
fn from_u128_name_mismatch_returns_name_mismatch() {
    let u: u128 = 26;
    let s: u128 = 24;
    let e: u128 = 10;
    let r: u128 = 23;

    let name_bits = (u << 123) | (s << 118) | (e << 113) | (r << 108);

    let id = name_bits | UUID_V8_MASK;

    let result = Tnid::<TestId>::from_u128(id);
    match result {
        Err(ParseTnidError::NameMismatch { expected, found }) => {
            assert_eq!(expected, "test");
            assert_eq!(found, "user");
        }
        other => panic!("expected NameMismatch, got {:?}", other),
    }
}

#[test]
fn from_u128_empty_name_bits_returns_invalid_name_bits() {
    let name_bits: u128 = 0;

    let id = name_bits | UUID_V8_MASK;

    let result = Tnid::<TestId>::from_u128(id);
    assert!(
        matches!(result, Err(ParseTnidError::InvalidNameBits)),
        "expected InvalidNameBits, got {:?}",
        result
    );
}

#[test]
fn from_u128_wrong_uuid_bits_returns_invalid_uuid_bits() {
    assert_eq!(
        Tnid::<TestId>::from_u128(0),
        Err(ParseTnidError::InvalidUuidBits)
    );
    assert!(TNID::<TestId>::from_u128(0).is_none());
}

#[test]
fn new_v0_with_time_pre_epoch_wraps() {
    let pre_epoch = OffsetDateTime::from_unix_timestamp(-14182980).expect("valid unix timestamp");

    let id: Tnid<TestId> = Tnid::new_v0_with_time(pre_epoch);

    assert_eq!(id.name(), "test");

    let normal_time = OffsetDateTime::from_unix_timestamp(1704067200).expect("valid unix timestamp");
    let normal_id: Tnid<TestId> = Tnid::new_v0_with_time(normal_time);

    assert!(
        id.as_u128() > normal_id.as_u128(),
        "pre-epoch ID should sort after normal ID due to wrapping"
    );
}

#[test]
fn new_v0_filtered_produces_clean_ids() {
    let blocklist = Blocklist::new(&["TACO", "FOO", "BAR"]);

    for _ in 0..100 {
        let id = Tnid::<TestId>::new_v0_filtered(&blocklist).unwrap();
        let data = id.data_string();
        assert!(
            !blocklist.contains_match(&data),
            "filtered ID should not contain blocklist words: {data}"
        );
    }
}

#[test]
fn new_v1_filtered_produces_clean_ids() {
    let blocklist = Blocklist::new(&["TACO", "FOO", "BAR"]);

    for _ in 0..100 {
        let id = Tnid::<TestId>::new_v1_filtered(&blocklist).unwrap();
        let data = id.data_string();
        assert!(
            !blocklist.contains_match(&data),
            "filtered ID should not contain blocklist words: {data}"
        );
    }
}

#[test]
fn new_v0_filtered_for_encryption_produces_clean_ids() {
    let key = EncryptionKey::new([1u8; 16]);
    let blocklist = Blocklist::new(&["TACO", "FOO", "BAR"]);

    for _ in 0..50 {
        let v0 = Tnid::<TestId>::new_v0_filtered_for_encryption(&key, &blocklist).unwrap();
        let v0_data = v0.data_string();
        assert!(
            !blocklist.contains_match(&v0_data),
            "V0 should not contain blocklist words: {v0_data}"
        );

        let v1 = v0.encrypt_v0_to_v1(&key).unwrap();
        let v1_data = v1.data_string();
        assert!(
            !blocklist.contains_match(&v1_data),
            "encrypted V1 should not contain blocklist words: {v1_data}"
        );
    }
}

#[test]
fn filtered_with_empty_blocklist_succeeds() {
    let blocklist = Blocklist::new(&[]);

    let v0 = Tnid::<TestId>::new_v0_filtered(&blocklist);
    assert!(v0.is_ok());

    let v1 = Tnid::<TestId>::new_v1_filtered(&blocklist);
    assert!(v1.is_ok());
}

#[test]
fn data_string_returns_17_chars() {
    let id: Tnid<TestId> = Tnid::new_v0_with_parts(1_700_000_000_000, 42);
    let data = id.data_string();
    assert_eq!(data.len(), 17);
}

#[test]
fn name_and_hex_of_typed_ids() {
    let id = Tnid::<TestId>::new_v1();
    assert_eq!(id.name(), "test");
    assert_eq!(id.name_hex(), "cab19");
    let id = TNID::<TestId>::new_v1();
    assert_eq!(id.name(), "test");
    assert_eq!(id.name_hex(), "cab19");
}

#[test]
fn new_v1_with_random_known_value() {
    let id = Tnid::<TestId>::new_v1_with_random(u128::MAX);
    assert_eq!(id.as_u128(), 0xcab19fff_ffff_8fff_9fff_ffffffffffff);
    assert_eq!(id.variant(), TnidVariant::V1);
    let id = TNID::<TestId>::new_v1_with_random(0);
    assert_eq!(id.as_u128(), 0xcab19000_0000_8000_9000_000000000000);
}

#[test]
fn uuid_string_roundtrip_both_cases() {
    let original = Tnid::<User>::new_v1();
    let lower = original.to_uuid_string(Case::Lower);
    let upper = original.to_uuid_string(Case::Upper);
    assert_eq!(lower.to_uppercase(), upper);
    assert_eq!(Tnid::<User>::parse_uuid_string(&lower).unwrap().as_u128(), original.as_u128());
    assert_eq!(Tnid::<User>::parse_uuid_string(&upper).unwrap().as_u128(), original.as_u128());
    assert!(Tnid::<User>::parse_uuid_string("not-a-uuid").is_err());

    let old = TNID::<User>::new_v1();
    let s = old.to_uuid_string_cased(true);
    assert_eq!(TNID::<User>::parse_uuid_string(&s).unwrap().as_u128(), old.as_u128());
    assert!(TNID::<TestId>::parse_uuid_string(&s).is_none());
}

#[test]
fn name_str_validation() {
    assert!(NameStr::new("user").is_ok());
    assert_eq!(NameStr::new("").unwrap_err(), NameError::Empty);
    assert_eq!(NameStr::new("users").unwrap_err(), NameError::TooLong(5));
    assert_eq!(NameStr::new("é").unwrap_err(), NameError::NonAscii);
    assert_eq!(NameStr::new("User").unwrap_err(), NameError::InvalidChar(b'U'));
    assert_eq!(NameStr::new("a5").unwrap_err(), NameError::InvalidChar(b'5'));
    assert_eq!(NameStr::new("ab").unwrap().as_str(), "ab");
}

#[test]
fn text_forms_both_parse_for_typed() {
    let id = Tnid::<TestId>::new_v1_with_random(0x0123456789ABCDEF0123456789ABCDEF);

    let from_tnid = Tnid::<TestId>::parse_tnid_or_uuid_str(&id.to_tnid_string()).unwrap();
    assert_eq!(from_tnid.as_u128(), id.as_u128());

    let from_uuid =
        Tnid::<TestId>::parse_tnid_or_uuid_str(&id.to_uuid_string(Case::Lower)).unwrap();
    assert_eq!(from_uuid.as_u128(), id.as_u128());

    assert_eq!(
        Tnid::<TestId>::parse_tnid_or_uuid_str("nope"),
        Err(ParseTnidError::InvalidUuidFormat(
            tnid::ParseUuidStringError::WrongLength(4)
        ))
    );
    assert_eq!(
        Tnid::<TestId>::parse_tnid_or_uuid_str("x."),
        Err(ParseTnidError::InvalidLength(2))
    );
}

#[test]
fn from_u128_requires_exact_uuid_v8_bits() {
    // The spec's test TNID, and the same bits with version nibble 0xF.
    let good = 0xCAB19F49_5DC7_8C1F_9AB9_8261DB92A91Cu128;
    let bad_version = 0xCAB19F49_5DC7_FC1F_9AB9_8261DB92A91Cu128;
    let bad_variant = 0xCAB19F49_5DC7_8C1F_DAB9_8261DB92A91Cu128;
    assert_eq!(Tnid::<TestId>::from_u128(good).unwrap().as_u128(), good);
    assert_eq!(
        Tnid::<TestId>::from_u128(bad_version),
        Err(ParseTnidError::InvalidUuidBits)
    );
    assert_eq!(
        Tnid::<TestId>::from_u128(bad_variant),
        Err(ParseTnidError::InvalidUuidBits)
    );
    assert!(TNID::<TestId>::from_u128(bad_version).is_none());
    assert!(tnid::DynamicTnid::from_u128(bad_version).is_none());
}

#[test]
fn spec_example_v1_value_and_name() {
    let id = Tnid::<TestId>::new_v1_with_random(0xCAB19F49_5DC7_8C1F_9AB9_8261DB92A91C);
    assert_eq!(id.as_u128(), 0xCAB19F49_5DC7_8C1F_9AB9_8261DB92A91C);
    assert_eq!(id.variant(), TnidVariant::V1);
    assert_eq!(id.to_tnid_string(), "test.x8MRU0xetVa6QZeZR");
    assert_eq!(id.name(), "test");
    let back = Tnid::<TestId>::parse_tnid_string(&id.to_tnid_string()).unwrap();
    assert_eq!(back, id);
    assert_eq!(
        Tnid::<User>::parse_tnid_string(&id.to_tnid_string()),
        Err(ParseTnidError::NameMismatch { expected: "user", found: "test".to_string() })
    );
}
