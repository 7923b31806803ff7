use tnid::encryption::EncryptionKey;
use tnid::{DynamicTnid, NameStr, Tnid, TnidName, TnidVariant};

#[derive(Debug, PartialEq)]
struct TestId;
impl TnidName for TestId {
    fn id_name() -> NameStr<'static> {
        NameStr::new_const("test")
    }
}

#[test]
fn dynamic_from_parts_matches_typed() {
    let name = NameStr::new("test").unwrap();
    let d = DynamicTnid::new_v0_with_parts(name, 1_700_000_000_000, 42).unwrap();
    let t = Tnid::<TestId>::new_v0_with_parts(1_700_000_000_000, 42);
    assert_eq!(d.as_u128(), t.as_u128());
    assert_eq!(d.name(), "test");
    assert_eq!(d.name_hex(), "cab19");
    assert_eq!(d.variant(), TnidVariant::V0);
    assert_eq!(d.to_tnid_string(), t.to_tnid_string());

    let d = DynamicTnid::new_v1_with_random(name, u128::MAX).unwrap();
    assert_eq!(d.as_u128(), 0xcab19fff_ffff_8fff_9fff_ffffffffffff);
    assert_eq!(d.variant(), TnidVariant::V1);
}

#[test]
fn dynamic_string_roundtrips() {
    let name = NameStr::new("user").unwrap();
    for d in [
        DynamicTnid::new_v0(name).unwrap(),
        DynamicTnid::new_v1(name).unwrap(),
        DynamicTnid::new_time_ordered(name).unwrap(),
        DynamicTnid::new_high_entropy(name).unwrap(),
    ] {
        let s = d.to_tnid_string();
        assert!(s.starts_with("user."));
        assert_eq!(DynamicTnid::parse_tnid_string(&s), Some(d));
        let u = d.to_uuid_string(false);
        assert_eq!(DynamicTnid::parse_uuid_string(&u), Some(d));
        let u = d.to_uuid_string(true);
        assert_eq!(DynamicTnid::parse_uuid_string(&u), Some(d));
        assert_eq!(DynamicTnid::from_u128(d.as_u128()), Some(d));
        assert_eq!(DynamicTnid::from_bytes(d.to_bytes()), Some(d));
    }
}

#[test]
fn dynamic_bytes_are_big_endian() {
    let name = NameStr::new("a").unwrap();
    let d = DynamicTnid::new_v1_with_random(name, 0x0102).unwrap();
    assert_eq!(d.to_bytes(), d.as_u128().to_be_bytes());
    assert_eq!(DynamicTnid::from_bytes([0u8; 16]), None);
}

#[test]
fn dynamic_parse_refusals() {
    assert_eq!(DynamicTnid::parse_tnid_string("user.Br2fl"), None);
    assert_eq!(DynamicTnid::parse_tnid_string("userxBr2flcNDfF6LYICnT"), None);
    assert_eq!(DynamicTnid::parse_tnid_string("User.Br2flcNDfF6LYICnT"), None);
    assert_eq!(DynamicTnid::parse_tnid_string("user.Br2flcNDfF6LYIC!T"), None);
    assert!(DynamicTnid::parse_tnid_string("user.Br2flcNDfF6LYICnT").is_some());
    assert_eq!(
        DynamicTnid::parse_tnid_string("user.Br2flcNDfF6LYICnT").unwrap().name(),
        "user"
    );
    assert_eq!(DynamicTnid::parse_uuid_string("not-a-uuid"), None);
    assert_eq!(
        DynamicTnid::parse_uuid_string("00000000-0000-0000-0000-000000000000"),
        None
    );
    assert_eq!(DynamicTnid::from_u128(0), None);
}

#[test]
fn dynamic_encryption_roundtrip() {
    let key = EncryptionKey::new([5u8; 16]);
    let name = NameStr::new("user").unwrap();
    let d = DynamicTnid::new_v0_with_parts(name, 1_750_000_000_000, 7).unwrap();
    let e = d.encrypt_v0_to_v1(key).unwrap();
    assert_eq!(e.variant(), TnidVariant::V1);
    assert_eq!(e.name(), "user");
    assert_eq!(e.decrypt_v1_to_v0(key), Some(d));
    assert_eq!(e.encrypt_v0_to_v1(key), Some(e));
    assert_eq!(d.decrypt_v1_to_v0(key), Some(d));
}

#[test]
fn dynamic_typed_conversions() {
    let t = Tnid::<TestId>::new_v1();
    let d: DynamicTnid = t.into();
    assert_eq!(d.as_u128(), t.as_u128());
    let back: Tnid<TestId> = d.try_into().unwrap();
    assert_eq!(back.as_u128(), t.as_u128());

    let other = DynamicTnid::new_v1(NameStr::new("user").unwrap()).unwrap();
    let refused: Result<Tnid<TestId>, ()> = other.try_into();
    assert_eq!(refused, Err(()));
}

#[test]
fn dynamic_text_forms_both_parse() {
    let id = DynamicTnid::from(Tnid::<TestId>::new_v1_with_random(
        0x0123456789ABCDEF0123456789ABCDEF,
    ));
    let a = DynamicTnid::parse_tnid_or_uuid_str(&id.to_tnid_string()).unwrap();
    assert_eq!(a.as_u128(), id.as_u128());
    let b = DynamicTnid::parse_tnid_or_uuid_str(&id.to_uuid_string(false)).unwrap();
    assert_eq!(b.as_u128(), id.as_u128());
    assert!(DynamicTnid::parse_tnid_or_uuid_str("not-a-tnid").is_none());
}

#[test]
fn sixteen_bytes_read_big_endian() {
    let mut bytes = [0u8; 16];
    bytes[15] = 0x01;
    bytes[0] = 0x80;
    assert_eq!(
        tnid::dynamic_tnid::bytes_to_u128(&bytes),
        Ok(0x8000_0000_0000_0000_0000_0000_0000_0001u128)
    );
    assert_eq!(tnid::dynamic_tnid::bytes_to_u128(&bytes[..15]), Err(15));
    assert_eq!(tnid::dynamic_tnid::bytes_to_u128(&[]), Err(0));

    let id = DynamicTnid::from(Tnid::<TestId>::new_v1_with_random(7));
    let back = tnid::dynamic_tnid::bytes_to_u128(&id.to_bytes()).unwrap();
    assert_eq!(back, id.as_u128());
}

#[test]
fn names_sort_as_their_encoded_fields() {
    let names = ["0", "01", "4", "a", "a0", "ab", "b", "z", "zz", "zzzz"];
    let ids: Vec<DynamicTnid> = names
        .iter()
        .map(|n| DynamicTnid::new_v1_with_random(NameStr::new(n).unwrap(), 0).unwrap())
        .collect();
    for w in ids.windows(2) {
        assert!(w[0].as_u128() < w[1].as_u128());
        assert!(w[0].to_tnid_string() < w[1].to_tnid_string());
    }
    for w in names.windows(2) {
        assert!(w[0] < w[1]);
    }
}
