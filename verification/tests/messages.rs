use tnid::encryption::{EncryptionError, EncryptionKeyError};
use tnid::filter::FilterError;
use tnid::{
    DataEncodingError, Error, NameError, ParseTnidError, ParseUuidStringError, TNIDVariant,
};

#[test]
fn name_error_messages() {
    assert_eq!(NameError::Empty.message(), "name cannot be empty");
    assert_eq!(
        NameError::TooLong(5).message(),
        "name length 5 exceeds maximum of 4 characters"
    );
    assert_eq!(
        NameError::NonAscii.message(),
        "name must contain only ASCII characters"
    );
    assert_eq!(
        NameError::InvalidChar(b'U').message(),
        "invalid character 'U' (0x55) in name; only 0-4 and a-z are allowed"
    );
}

#[test]
fn key_and_encryption_error_messages() {
    assert_eq!(
        EncryptionKeyError::WrongHexLength(4).message(),
        "encryption key hex string must be 32 characters, got 4"
    );
    assert_eq!(
        EncryptionKeyError::InvalidHexChar {
            position: 30,
            character: 'z'
        }
        .message(),
        "invalid hex character 'z' (U+007A) at position 30"
    );
    assert_eq!(
        EncryptionKeyError::WrongByteLength(15).message(),
        "encryption key slice must be 16 bytes, got 15"
    );
    assert_eq!(
        EncryptionKeyError::NonAscii.message(),
        "encryption key hex string must be ASCII"
    );
    assert_eq!(
        EncryptionError::UnsupportedVariant(TNIDVariant::V2).message(),
        "TNID variant V2 is not supported for encryption/decryption"
    );
}

#[test]
fn parse_error_messages() {
    assert_eq!(
        ParseUuidStringError::WrongLength(10).message(),
        "UUID string must be 36 characters, got 10"
    );
    assert_eq!(
        ParseUuidStringError::MissingHyphen(8).message(),
        "missing hyphen at position 8"
    );
    assert_eq!(
        ParseUuidStringError::InvalidHexChar {
            position: 0,
            byte: b'g'
        }
        .message(),
        "invalid hex character 'g' (0x67) at position 0"
    );
    assert_eq!(
        ParseTnidError::NameMismatch {
            expected: "test",
            found: "user".to_string()
        }
        .message(),
        "name mismatch: expected 'test', found 'user'"
    );
    assert_eq!(
        ParseTnidError::InvalidLength(15).message(),
        "TNID string length 15 is invalid; expected 19-22 characters"
    );
    assert_eq!(
        ParseTnidError::InvalidName(NameError::Empty).message(),
        "invalid TNID name: name cannot be empty"
    );
    assert_eq!(
        ParseTnidError::InvalidDataEncoding(DataEncodingError::WrongLength(3)).message(),
        "invalid TNID data encoding: data string must be 17 characters, got 3"
    );
    assert_eq!(
        ParseTnidError::InvalidUuidBits.message(),
        "invalid UUID version/variant bits; expected UUIDv8"
    );
}

#[test]
fn other_error_messages() {
    assert_eq!(
        FilterError::MaxIterationsExceeded { iterations: 1000 }.message(),
        "failed to generate clean ID after 1000 iterations; blocklist may be too restrictive"
    );
    assert_eq!(
        FilterError::EncryptionError(EncryptionError::UnsupportedVariant(TNIDVariant::V3)).message(),
        "encryption error: TNID variant V3 is not supported for encryption/decryption"
    );
    assert_eq!(
        Error::InvalidUuidVersion.message(),
        "Invalid TNID: not UUIDv8 format"
    );
    assert_eq!(
        Error::TimeError("clock".to_string()).message(),
        "Time Error: clock"
    );
    assert_eq!(
        DataEncodingError::InvalidChar {
            position: 8,
            byte: b'.'
        }
        .message(),
        "invalid data character '.' (0x2e) at position 8"
    );
}
