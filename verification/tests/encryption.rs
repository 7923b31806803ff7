use tnid::encryption::{
    decrypt, decrypt_id_v1_to_v0, encrypt, encrypt_id_v0_to_v1, expand_secret_data_bits,
    extract_secret_data_bits, EncryptionError, EncryptionKey, EncryptionKeyError,
    COMPLETE_SECRET_DATA_MASK, SECRET_DATA_BIT_NUM,
};
use tnid::{NameStr, TNIDVariant};

#[test]
fn encryption_secret_data_extract_correctly() {
    let extract = extract_secret_data_bits(u128::MAX);
    assert_eq!(extract.leading_zeros(), 28);
    assert_eq!(extract.count_ones(), SECRET_DATA_BIT_NUM as u32);

    assert_eq!(
        COMPLETE_SECRET_DATA_MASK.count_ones(),
        SECRET_DATA_BIT_NUM as u32
    );

    let extract = extract_secret_data_bits(COMPLETE_SECRET_DATA_MASK);
    assert_eq!(extract.leading_zeros(), 28);
    assert_eq!(extract.count_ones(), SECRET_DATA_BIT_NUM as u32);
}

#[test]
fn encryption_secret_data_expand_correctly() {
    let expanded = expand_secret_data_bits(u128::MAX);
    assert_eq!(expanded, COMPLETE_SECRET_DATA_MASK);
    assert_eq!(expanded.count_ones(), SECRET_DATA_BIT_NUM as u32);
}

#[test]
fn encryption_secret_data_roundtrip() {
    let original = COMPLETE_SECRET_DATA_MASK;
    let extracted = extract_secret_data_bits(original);
    let expanded = expand_secret_data_bits(extracted);
    assert_eq!(expanded, original);

    let pattern = 0x00000aaa_aaaa_0000_0555_555555555555u128;
    let extracted = extract_secret_data_bits(pattern);
    let expanded = expand_secret_data_bits(extracted);
    assert_eq!(
        expanded & COMPLETE_SECRET_DATA_MASK,
        pattern & COMPLETE_SECRET_DATA_MASK
    );
}

#[test]
fn encryption_encryption_round_trip() {
    let key = EncryptionKey::new([1, 2, 3, 4, 5, 6, 7, 8, 9, 10, 11, 12, 13, 14, 15, 16]);
    let id_secret_data = extract_secret_data_bits(u128::MAX);
    let encrypted = encrypt(id_secret_data, &key);

    let decrypted = decrypt(encrypted, &key);

    assert_eq!(decrypted, id_secret_data);
}

#[test]
fn encrypt_changes_data_and_stays_in_100_bits() {
    let key = EncryptionKey::new([1u8; 16]);
    for data in [0u128, 1, 0x1234_5678, (1u128 << 100) - 1] {
        let e = encrypt(data, &key);
        assert!(e < (1u128 << 100));
        assert_ne!(e, data);
        assert_eq!(decrypt(e, &key), data);
    }
    // Only the low 100 bits are encrypted.
    assert_eq!(encrypt(1u128 << 100, &key), encrypt(0, &key));
}

#[test]
fn decrypt_of_many_values_does_not_panic() {
    let mut x: u128 = 0x0123_4567_89ab_cdef_0123_4567_89ab_cdef;
    for i in 0..200u32 {
        x = x.wrapping_mul(0x9e37_79b9_7f4a_7c15_f39c_c060_5ced_c835).wrapping_add(i as u128);
        let key = EncryptionKey::new(x.to_le_bytes());
        decrypt(x, &key);
    }
}

#[test]
fn encryption_key_from_hex() {
    let key = EncryptionKey::from_hex("0102030405060708090a0b0c0d0e0f10").unwrap();
    assert_eq!(
        key.as_bytes(),
        &[1, 2, 3, 4, 5, 6, 7, 8, 9, 10, 11, 12, 13, 14, 15, 16]
    );
    let upper = EncryptionKey::from_hex("0102030405060708090A0B0C0D0E0F10").unwrap();
    assert_eq!(key, upper);
    assert_eq!(
        EncryptionKey::from_hex("0102"),
        Err(EncryptionKeyError::WrongHexLength(4))
    );
    assert_eq!(
        EncryptionKey::from_hex("0102030405060708090a0b0c0d0e0fzz"),
        Err(EncryptionKeyError::InvalidHexChar {
            position: 30,
            character: 'z'
        })
    );
}

#[test]
fn encryption_key_from_slice() {
    let key = EncryptionKey::from_slice(&[9u8; 16]).unwrap();
    assert_eq!(key, EncryptionKey::new([9u8; 16]));
    assert_eq!(
        EncryptionKey::from_slice(&[9u8; 15]),
        Err(EncryptionKeyError::WrongByteLength(15))
    );
}

#[test]
fn id_encryption_by_variant() {
    let key = EncryptionKey::new([3u8; 16]);
    let name = NameStr::new_const("test");
    let v0 = tnid::v0::make_from_parts(name, 1_700_000_000_000, 42);
    let v1 = encrypt_id_v0_to_v1(v0, &key).unwrap();
    assert_eq!(TNIDVariant::from_id(v1), TNIDVariant::V1);
    assert_eq!(decrypt_id_v1_to_v0(v1, &key), Ok(v0));
    assert_eq!(encrypt_id_v0_to_v1(v1, &key), Ok(v1));
    assert_eq!(decrypt_id_v1_to_v0(v0, &key), Ok(v0));
    let v2 = tnid::utils::change_variant(v0, TNIDVariant::V2);
    assert_eq!(
        encrypt_id_v0_to_v1(v2, &key),
        Err(EncryptionError::UnsupportedVariant(TNIDVariant::V2))
    );
    let v3 = tnid::utils::change_variant(v0, TNIDVariant::V3);
    assert_eq!(
        decrypt_id_v1_to_v0(v3, &key),
        Err(EncryptionError::UnsupportedVariant(TNIDVariant::V3))
    );
}

#[test]
fn key_from_byte_array() {
    let bytes = [7u8; 16];
    let key = EncryptionKey::from(bytes);
    assert_eq!(key.as_bytes(), &bytes);
    assert_eq!(key, EncryptionKey::new(bytes));
}
