//! Format-preserving encryption of TNIDs.
//!
//! A v0 TNID carries its creation time. Encrypting its 100 payload bits with FF1
//! (AES-128, radix 16) gives a v1 TNID with the same name that hides the time and
//! that the key holder can decrypt back to the original. Only the payload bits and
//! the TNID variant bits change.
use vstd::prelude::*;

use crate::text::{pad_left, push_char, push_decimal, push_hex, push_str, spec_decimal, spec_digits};

use crate::bits::{lemma_and_le, lemma_append_digit, lemma_shr_ends, lemma_split_digit};

use aes::Aes128;
use fpe::ff1::{FlexibleNumeralString, FF1};

use crate::tnid_variant::{spec_variant_of_id, TNIDVariant};
use crate::utils::{
    change_variant, hex_char_to_nibble, hex_value, lemma_pow16_mono, pow16, spec_change_variant,
};
use vstd::string::StringSliceAdditionalSpecFns;

verus! {

broadcast use vstd::string::is_ascii_spec_bytes;

/// Error when creating an [`EncryptionKey`].
#[derive(Debug, Clone, Copy, PartialEq, Eq)]
pub enum EncryptionKeyError {
    /// The hex string is not 32 bytes long (holds the byte length).
    WrongHexLength(usize),
    /// An invalid hex character, with its byte position.
    InvalidHexChar { position: usize, character: char },
    /// The byte slice is not 16 bytes long (holds the actual length).
    WrongByteLength(usize),
    /// The hex string contains non-ASCII characters.
    NonAscii,
}

/// Error when encrypting or decrypting a TNID.
#[derive(Debug, Clone, Copy, PartialEq, Eq)]
pub enum EncryptionError {
    /// The TNID variant is not supported for encryption/decryption.
    UnsupportedVariant(TNIDVariant),
}

/// The name of a variant, as `Debug` writes it.
pub open spec fn spec_variant_label(v: TNIDVariant) -> Seq<char> {
    match v {
        TNIDVariant::V0 => "V0"@,
        TNIDVariant::V1 => "V1"@,
        TNIDVariant::V2 => "V2"@,
        TNIDVariant::V3 => "V3"@,
    }
}

/// The description of an encryption key error.
pub open spec fn spec_key_error_message(e: EncryptionKeyError) -> Seq<char> {
    match e {
        EncryptionKeyError::WrongHexLength(len) => "encryption key hex string must be 32 characters, got "@
            + spec_decimal(len as nat),
        EncryptionKeyError::InvalidHexChar { position, character } => "invalid hex character '"@
            + seq![character] + "' (U+"@ + pad_left(spec_digits(character as nat, 16, true), 4, '0')
            + ") at position "@ + spec_decimal(position as nat),
        EncryptionKeyError::WrongByteLength(len) => "encryption key slice must be 16 bytes, got "@
            + spec_decimal(len as nat),
        EncryptionKeyError::NonAscii => "encryption key hex string must be ASCII"@,
    }
}

/// The description of an encryption error.
pub open spec fn spec_encryption_error_message(e: EncryptionError) -> Seq<char> {
    match e {
        EncryptionError::UnsupportedVariant(v) => "TNID variant "@ + spec_variant_label(v)
            + " is not supported for encryption/decryption"@,
    }
}

impl EncryptionKeyError {
    /// A description of the error.
    pub fn message(&self) -> (r: String)
        ensures
            r@ == spec_key_error_message(*self),
    {
        let mut s = String::new();
        match self {
            EncryptionKeyError::WrongHexLength(len) => {
                push_str(&mut s, "encryption key hex string must be 32 characters, got ");
                push_decimal(&mut s, *len as u128);
            },
            EncryptionKeyError::InvalidHexChar { position, character } => {
                push_str(&mut s, "invalid hex character '");
                push_char(&mut s, *character);
                push_str(&mut s, "' (U+");
                push_hex(&mut s, *character as u32 as u128, 4, true);
                push_str(&mut s, ") at position ");
                push_decimal(&mut s, *position as u128);
            },
            EncryptionKeyError::WrongByteLength(len) => {
                push_str(&mut s, "encryption key slice must be 16 bytes, got ");
                push_decimal(&mut s, *len as u128);
            },
            EncryptionKeyError::NonAscii => push_str(&mut s, "encryption key hex string must be ASCII"),
        }
        proof {
            assert(s@ =~= spec_key_error_message(*self));
        }
        s
    }
}

impl EncryptionError {
    /// A description of the error.
    pub fn message(&self) -> (r: String)
        ensures
            r@ == spec_encryption_error_message(*self),
    {
        let mut s = String::new();
        match self {
            EncryptionError::UnsupportedVariant(v) => {
                push_str(&mut s, "TNID variant ");
                match v {
                    TNIDVariant::V0 => push_str(&mut s, "V0"),
                    TNIDVariant::V1 => push_str(&mut s, "V1"),
                    TNIDVariant::V2 => push_str(&mut s, "V2"),
                    TNIDVariant::V3 => push_str(&mut s, "V3"),
                }
                push_str(&mut s, " is not supported for encryption/decryption");
            },
        }
        proof {
            assert(s@ =~= spec_encryption_error_message(*self));
        }
        s
    }
}

/// A 128-bit (16 byte) key for TNID encryption with AES-128 in FF1 mode.
#[derive(Debug, Clone, Copy, PartialEq, Eq)]
pub struct EncryptionKey([u8; 16]);

impl View for EncryptionKey {
    type V = Seq<u8>;

    closed spec fn view(&self) -> Seq<u8> {
        self.0@
    }
}

impl From<[u8; 16]> for EncryptionKey {
    fn from(bytes: [u8; 16]) -> (r: Self)
        ensures
            r@ == bytes@,
    {
        EncryptionKey(bytes)
    }
}

impl vstd::std_specs::convert::FromSpecImpl<[u8; 16]> for EncryptionKey {
    open spec fn obeys_from_spec() -> bool {
        true
    }

    closed spec fn from_spec(v: [u8; 16]) -> EncryptionKey {
        EncryptionKey(v)
    }
}

/// Whether every byte is a hex digit.
pub open spec fn is_hex_bytes(b: Seq<u8>) -> bool {
    forall|i: int| 0 <= i < b.len() ==> (#[trigger] hex_value(b[i] as int)) is Some
}

/// Position of the first byte that is not a hex digit (the length if none).
pub open spec fn first_non_hex(b: Seq<u8>, from: int) -> int
    decreases b.len() - from,
{
    if from >= b.len() || from < 0 {
        b.len() as int
    } else if hex_value(b[from] as int) is None {
        from
    } else {
        first_non_hex(b, from + 1)
    }
}

/// The key bytes spelled by 32 hex digits, two per byte, high nibble first.
pub open spec fn spec_key_bytes_of_hex(b: Seq<u8>) -> Seq<u8> {
    Seq::new(
        16,
        |i: int|
            (hex_value(b[2 * i] as int).unwrap() * 16 + hex_value(b[2 * i + 1] as int).unwrap())
                as u8,
    )
}

/// What parsing a hex key gives, in the order the checks are made.
pub open spec fn spec_key_from_hex(s: &str) -> Result<Seq<u8>, EncryptionKeyError> {
    key_from_hex_of(s@)
}

/// What parsing the characters `c` as a hex key gives, in the order the checks are made.
pub open spec fn key_from_hex_of(c: Seq<char>) -> Result<Seq<u8>, EncryptionKeyError> {
    let b = vstd::utf8::encode_utf8(c);
    if b.len() != 32 {
        Err(EncryptionKeyError::WrongHexLength(b.len() as usize))
    } else if !vstd::utf8::is_ascii_chars(c) {
        Err(EncryptionKeyError::NonAscii)
    } else if !is_hex_bytes(b) {
        Err(
            EncryptionKeyError::InvalidHexChar {
                position: first_non_hex(b, 0) as usize,
                character: b[first_non_hex(b, 0)] as char,
            },
        )
    } else {
        Ok(spec_key_bytes_of_hex(b))
    }
}

proof fn lemma_first_non_hex(b: Seq<u8>, from: int, i: int)
    requires
        0 <= from <= i < b.len(),
        forall|k: int| from <= k < i ==> (#[trigger] hex_value(b[k] as int)) is Some,
        hex_value(b[i] as int) is None,
    ensures
        first_non_hex(b, from) == i,
    decreases i - from,
{
    if from < i {
        lemma_first_non_hex(b, from + 1, i);
    }
}

impl EncryptionKey {
    /// Creates a new encryption key from raw bytes.
    pub fn new(bytes: [u8; 16]) -> (r: Self)
        ensures
            r@ == bytes@,
    {
        EncryptionKey(bytes)
    }

    /// Creates an encryption key from a 32-character hex string (either case).
    pub fn from_hex(s: &str) -> (r: Result<Self, EncryptionKeyError>)
        ensures
            match r {
                Ok(k) => spec_key_from_hex(s) == Ok::<Seq<u8>, EncryptionKeyError>(k@),
                Err(e) => spec_key_from_hex(s) == Err::<Seq<u8>, EncryptionKeyError>(e),
            },
    {
        let b = s.as_bytes();
        if b.len() != 32 {
            return Err(EncryptionKeyError::WrongHexLength(b.len()));
        }
        if !s.is_ascii() {
            return Err(EncryptionKeyError::NonAscii);
        }
        let mut bytes = [0u8; 16];
        let mut i: usize = 0;
        while i < 16
            invariant
                b@ == s.spec_bytes(),
                b@.len() == 32,
                vstd::string::is_ascii(s),
                i <= 16,
                forall|k: int| 0 <= k < 2 * i ==> (#[trigger] hex_value(b@[k] as int)) is Some,
                forall|k: int| 0 <= k < i ==> #[trigger] bytes@[k] == spec_key_bytes_of_hex(b@)[k],
            decreases 16 - i,
        {
            let pos = i * 2;
            let high_byte = b[pos];
            let low_byte = b[pos + 1];
            let high = match hex_char_to_nibble(high_byte) {
                Some(h) => h,
                None => {
                    proof {
                        lemma_first_non_hex(b@, 0, pos as int);
                    }
                    return Err(
                        EncryptionKeyError::InvalidHexChar {
                            position: pos,
                            character: high_byte as char,
                        },
                    );
                },
            };
            let low = match hex_char_to_nibble(low_byte) {
                Some(l) => l,
                None => {
                    proof {
                        lemma_first_non_hex(b@, 0, pos + 1);
                    }
                    return Err(
                        EncryptionKeyError::InvalidHexChar {
                            position: pos + 1,
                            character: low_byte as char,
                        },
                    );
                },
            };
            let v = high * 16 + low;
            bytes[i] = v;
            i += 1;
        }
        proof {
            assert(is_hex_bytes(b@));
            assert(bytes@ =~= spec_key_bytes_of_hex(b@));
        }
        Ok(EncryptionKey(bytes))
    }

    /// Creates an encryption key from a byte slice of exactly 16 bytes.
    pub fn from_slice(s: &[u8]) -> (r: Result<Self, EncryptionKeyError>)
        ensures
            s@.len() == 16 ==> (r matches Ok(k) && k@ == s@),
            s@.len() != 16 ==> r == Err::<Self, EncryptionKeyError>(
                EncryptionKeyError::WrongByteLength(s@.len() as usize),
            ),
    {
        if s.len() != 16 {
            return Err(EncryptionKeyError::WrongByteLength(s.len()));
        }
        let mut bytes = [0u8; 16];
        let mut i: usize = 0;
        while i < 16
            invariant
                s@.len() == 16,
                i <= 16,
                forall|k: int| 0 <= k < i ==> #[trigger] bytes@[k] == s@[k],
            decreases 16 - i,
        {
            bytes[i] = s[i];
            i += 1;
        }
        proof {
            assert(bytes@ =~= s@);
        }
        Ok(EncryptionKey(bytes))
    }

    /// Returns the key as a byte array reference.
    pub fn as_bytes(&self) -> (r: &[u8; 16])
        ensures
            r@ == self@,
    {
        &self.0
    }
}

/// Payload bits 0-59 (below the TNID variant bits).
pub const RIGHT_SECRET_DATA_SECTION_MASK: u128 = 0x00000000_0000_0000_0fff_ffffffffffff;

/// Payload bits 64-75.
pub const MIDDLE_SECRET_DATA_SECTION_MASK: u128 = 0x00000000_0000_0fff_0000_000000000000;

/// Payload bits 80-107.
pub const LEFT_SECRET_DATA_SECTION_MASK: u128 = 0x00000fff_ffff_0000_0000_000000000000;

/// All 100 payload bits that are encrypted/decrypted.
pub const COMPLETE_SECRET_DATA_MASK: u128 = 0x00000fff_ffff_0fff_0fff_ffffffffffff;

/// The low 100 bits, where compacted payload lives.
pub const SECRET_DATA_MASK: u128 = 0x0000000f_ffff_ffff_ffff_ffffffffffff;

/// Number of payload bits.
pub const SECRET_DATA_BIT_NUM: u8 = 100;

/// Number of hex digits of the payload.
pub const HEX_DIGIT_COUNT: usize = 25;

/// The payload bits of `id`, compacted into the low 100 bits.
pub open spec fn spec_extract_secret_data_bits(id: u128) -> u128 {
    (id & RIGHT_SECRET_DATA_SECTION_MASK) | ((id & MIDDLE_SECRET_DATA_SECTION_MASK) >> 4u128) | ((
    id & LEFT_SECRET_DATA_SECTION_MASK) >> 8u128)
}

/// Compacted payload bits moved back to their positions in an id.
pub open spec fn spec_expand_secret_data_bits(bits: u128) -> u128 {
    (bits & RIGHT_SECRET_DATA_SECTION_MASK) | ((bits & (MIDDLE_SECRET_DATA_SECTION_MASK
        >> 4u128)) << 4u128) | ((bits & (LEFT_SECRET_DATA_SECTION_MASK >> 8u128)) << 8u128)
}

/// Extracts the payload bits (not the name, UUID or TNID variant bits) into the low 100 bits.
pub fn extract_secret_data_bits(id: u128) -> (r: u128)
    ensures
        r == spec_extract_secret_data_bits(id),
{
    let extracted = id & RIGHT_SECRET_DATA_SECTION_MASK;
    let extracted = extracted | ((id & MIDDLE_SECRET_DATA_SECTION_MASK) >> 4u128);
    extracted | ((id & LEFT_SECRET_DATA_SECTION_MASK) >> 8u128)
}

/// Expands compacted payload bits back into their positions (inverse of
/// [`extract_secret_data_bits`]); bits above the low 100 are ignored.
pub fn expand_secret_data_bits(bits: u128) -> (r: u128)
    ensures
        r == spec_expand_secret_data_bits(bits),
{
    let expanded = bits & RIGHT_SECRET_DATA_SECTION_MASK;
    let middle_mask = MIDDLE_SECRET_DATA_SECTION_MASK >> 4u128;
    let expanded = expanded | ((bits & middle_mask) << 4u128);
    let left_mask = LEFT_SECRET_DATA_SECTION_MASK >> 8u128;
    expanded | ((bits & left_mask) << 8u128)
}

/// Law: extracting the payload gives at most 100 bits, expanding it back gives
/// exactly the payload bits of the id, and extracting an expansion gives back the
/// low 100 bits.
pub proof fn lemma_secret_data_bits(id: u128, bits: u128)
    ensures
        spec_extract_secret_data_bits(id) <= SECRET_DATA_MASK,
        spec_expand_secret_data_bits(spec_extract_secret_data_bits(id)) == id
            & COMPLETE_SECRET_DATA_MASK,
        spec_extract_secret_data_bits(spec_expand_secret_data_bits(bits)) == bits
            & SECRET_DATA_MASK,
        spec_expand_secret_data_bits(bits) & COMPLETE_SECRET_DATA_MASK
            == spec_expand_secret_data_bits(bits),
{
    let r = 0x00000000_0000_0000_0fff_ffffffffffffu128;
    let m = 0x00000000_0000_0fff_0000_000000000000u128;
    let l = 0x00000fff_ffff_0000_0000_000000000000u128;
    let x = (id & r) | ((id & m) >> 4u128) | ((id & l) >> 8u128);
    let e = (bits & r) | ((bits & (m >> 4u128)) << 4u128) | ((bits & (l >> 8u128)) << 8u128);
    assert(x <= 0x0000000f_ffff_ffff_ffff_ffffffffffffu128) by (bit_vector)
        requires
            r == 0x00000000_0000_0000_0fff_ffffffffffffu128,
            m == 0x00000000_0000_0fff_0000_000000000000u128,
            l == 0x00000fff_ffff_0000_0000_000000000000u128,
            x == (id & r) | ((id & m) >> 4u128) | ((id & l) >> 8u128),
    ;
    assert((x & r) | ((x & (m >> 4u128)) << 4u128) | ((x & (l >> 8u128)) << 8u128) == id
        & 0x00000fff_ffff_0fff_0fff_ffffffffffffu128) by (bit_vector)
        requires
            r == 0x00000000_0000_0000_0fff_ffffffffffffu128,
            m == 0x00000000_0000_0fff_0000_000000000000u128,
            l == 0x00000fff_ffff_0000_0000_000000000000u128,
            x == (id & r) | ((id & m) >> 4u128) | ((id & l) >> 8u128),
    ;
    assert((e & r) | ((e & m) >> 4u128) | ((e & l) >> 8u128) == bits
        & 0x0000000f_ffff_ffff_ffff_ffffffffffffu128) by (bit_vector)
        requires
            r == 0x00000000_0000_0000_0fff_ffffffffffffu128,
            m == 0x00000000_0000_0fff_0000_000000000000u128,
            l == 0x00000fff_ffff_0000_0000_000000000000u128,
            e == (bits & r) | ((bits & (m >> 4u128)) << 4u128) | ((bits & (l >> 8u128))
                << 8u128),
    ;
    assert(e & 0x00000fff_ffff_0fff_0fff_ffffffffffffu128 == e) by (bit_vector)
        requires
            r == 0x00000000_0000_0000_0fff_ffffffffffffu128,
            m == 0x00000000_0000_0fff_0000_000000000000u128,
            l == 0x00000fff_ffff_0000_0000_000000000000u128,
            e == (bits & r) | ((bits & (m >> 4u128)) << 4u128) | ((bits & (l >> 8u128))
                << 8u128),
    ;
}

/// The 25 hex digits of the low 100 bits of `x`, most significant first.
pub open spec fn spec_hex_digits(x: u128) -> Seq<u16> {
    Seq::new(25, |i: int| ((x >> ((24 - i) * 4) as u128) & 15) as u16)
}

/// Folds digits into a value, 4 bits per digit: each step shifts left by 4 and ors in
/// the next digit.
pub open spec fn spec_hex_fold(ds: Seq<u16>, k: int) -> u128
    decreases k,
{
    if k <= 0 {
        0
    } else {
        (spec_hex_fold(ds, k - 1) << 4u128) | (ds[k - 1] as u128)
    }
}

/// Every digit is below 16.
pub open spec fn is_hex_digit_seq(ds: Seq<u16>) -> bool {
    forall|i: int| 0 <= i < ds.len() ==> #[trigger] ds[i] < 16
}

/// FF1 (AES-128, radix 16, empty tweak) encryption of 25 hex digits under a key.
pub uninterp spec fn ff1_encrypt_digits(key: Seq<u8>, digits: Seq<u16>) -> Seq<u16>;

/// FF1 (AES-128, radix 16, empty tweak) decryption of 25 hex digits under a key.
pub uninterp spec fn ff1_decrypt_digits(key: Seq<u8>, digits: Seq<u16>) -> Seq<u16>;

/// Calls `FF1::<Aes128>::new(key, 16)` and then `FF1::encrypt` with an empty tweak
/// (crate `fpe`).
///
/// Claimed of the outside code: the result is a function of the key and the digits,
/// it has as many digits as the input, each below the radix 16, and FF1 decryption
/// with the same key gives the input back (FF1 is a permutation of the numeral
/// strings of a given length). `new` accepts radix 16 and a 16-byte key; `encrypt`
/// accepts a numeral string whose digits are below the radix and whose length is at
/// least 5 (the minimum for radix 16).
#[verifier::external_body]
fn ff1_encrypt(key: &[u8; 16], digits: Vec<u16>) -> (r: Vec<u16>)
    requires
        digits@.len() == HEX_DIGIT_COUNT,
        is_hex_digit_seq(digits@),
    ensures
        r@ == ff1_encrypt_digits(key@, digits@),
        r@.len() == digits@.len(),
        is_hex_digit_seq(r@),
        ff1_decrypt_digits(key@, r@) == digits@,
{
    let ff1 = FF1::<Aes128>::new(key, 16).expect("radix 16 is always valid");
    ff1.encrypt(&[], &FlexibleNumeralString::from(digits)).expect(
        "string is in required radix",
    ).into()
}

/// Calls `FF1::<Aes128>::new(key, 16)` and then `FF1::decrypt` with an empty tweak
/// (crate `fpe`).
///
/// Claimed of the outside code: the result is a function of the key and the digits,
/// it has as many digits as the input, each below 16, and FF1 encryption with the
/// same key gives the input back.
#[verifier::external_body]
fn ff1_decrypt(key: &[u8; 16], digits: Vec<u16>) -> (r: Vec<u16>)
    requires
        digits@.len() == HEX_DIGIT_COUNT,
        is_hex_digit_seq(digits@),
    ensures
        r@ == ff1_decrypt_digits(key@, digits@),
        r@.len() == digits@.len(),
        is_hex_digit_seq(r@),
        ff1_encrypt_digits(key@, r@) == digits@,
{
    let ff1 = FF1::<Aes128>::new(key, 16).expect("radix 16 is always valid");
    ff1.decrypt(&[], &FlexibleNumeralString::from(digits)).expect(
        "string is in required radix",
    ).into()
}

/// The 25 hex digits of the low 100 bits of `data`, most significant first.
fn u128_to_hex_digits(data: u128) -> (r: Vec<u16>)
    ensures
        r@ == spec_hex_digits(data),
        is_hex_digit_seq(r@),
{
    let mut hex_digits: Vec<u16> = Vec::new();
    let mut i: usize = 0;
    while i < HEX_DIGIT_COUNT
        invariant
            i <= 25,
            hex_digits@ == spec_hex_digits(data).take(i as int),
        decreases 25 - i,
    {
        let shift = ((HEX_DIGIT_COUNT - 1 - i) * 4) as u128;
        assert((data >> shift) & 15 < 16) by { lemma_and_le(data >> shift, 15); }
        hex_digits.push(((data >> shift) & 0xF) as u16);
        proof {
            assert(hex_digits@ =~= spec_hex_digits(data).take(i + 1));
        }
        i += 1;
    }
    proof {
        assert(hex_digits@ =~= spec_hex_digits(data));
        assert forall|i: int| 0 <= i < 25 implies #[trigger] hex_digits@[i] < 16 by {
            let sh = ((24 - i) * 4) as u128;
            assert((data >> sh) & 15 < 16) by { lemma_and_le(data >> sh, 15); }
        }
    }
    hex_digits
}

/// Folds hex digits into a value, most significant first.
fn hex_digits_to_u128(digits: &[u16]) -> (r: u128)
    ensures
        r == spec_hex_fold(digits@, digits@.len() as int),
{
    let mut result = 0u128;
    let mut i: usize = 0;
    while i < digits.len()
        invariant
            i <= digits@.len(),
            result == spec_hex_fold(digits@, i as int),
        decreases digits@.len() - i,
    {
        result = (result << 4u128) | (digits[i] as u128);
        i += 1;
    }
    result
}

proof fn lemma_hex_fold_bound(ds: Seq<u16>, k: int)
    requires
        0 <= k <= ds.len(),
        k <= 25,
        is_hex_digit_seq(ds),
    ensures
        spec_hex_fold(ds, k) as int == (if k == 0 {
            0
        } else {
            spec_hex_fold(ds, k - 1) as int * 16 + ds[k - 1] as int
        }),
        (spec_hex_fold(ds, k) as int) < pow16(k as nat),
        pow16(k as nat) <= pow16(25),
    decreases k,
{
    reveal_with_fuel(pow16, 26);
    if k > 0 {
        lemma_hex_fold_bound(ds, k - 1);
        let y = spec_hex_fold(ds, k - 1);
        let d = ds[k - 1] as u128;
        assert(d < 16);
        assert(y < 0x1000000000000000000000000u128);
        lemma_append_digit(y, d);
        let p = pow16((k - 1) as nat);
        assert((y as int) * 16 + (d as int) < p * 16) by (nonlinear_arith)
            requires
                y < p,
                d < 16,
        ;
        lemma_pow16_mono(k as nat, 25);
    }
}

proof fn lemma_hex_fold_injective(ds1: Seq<u16>, ds2: Seq<u16>, k: int)
    requires
        0 <= k <= 25,
        k <= ds1.len(),
        k <= ds2.len(),
        is_hex_digit_seq(ds1),
        is_hex_digit_seq(ds2),
        spec_hex_fold(ds1, k) == spec_hex_fold(ds2, k),
    ensures
        ds1.take(k) == ds2.take(k),
    decreases k,
{
    if k > 0 {
        lemma_hex_fold_bound(ds1, k);
        lemma_hex_fold_bound(ds2, k);
        let y1 = spec_hex_fold(ds1, k - 1) as int;
        let y2 = spec_hex_fold(ds2, k - 1) as int;
        let d1 = ds1[k - 1] as int;
        let d2 = ds2[k - 1] as int;
        assert(d1 == d2 && y1 == y2) by (nonlinear_arith)
            requires
                y1 * 16 + d1 == y2 * 16 + d2,
                0 <= d1 < 16,
                0 <= d2 < 16,
                0 <= y1,
                0 <= y2,
        ;
        lemma_hex_fold_injective(ds1, ds2, k - 1);
        assert(ds1.take(k) =~= ds1.take(k - 1).push(ds1[k - 1]));
        assert(ds2.take(k) =~= ds2.take(k - 1).push(ds2[k - 1]));
    }
}

proof fn lemma_fold_hex_digits_prefix(x: u128, k: int)
    requires
        x <= SECRET_DATA_MASK,
        0 <= k <= 25,
    ensures
        spec_hex_fold(spec_hex_digits(x), k) == x >> ((25 - k) * 4) as u128,
    decreases k,
{
    if k == 0 {
        assert(x <= 0x0000000f_ffff_ffff_ffff_ffffffffffffu128 ==> x >> 100u128 == 0) by (bit_vector);
    } else {
        lemma_fold_hex_digits_prefix(x, k - 1);
        let s = ((25 - k) * 4) as u128;
        lemma_split_digit(x, s);
        lemma_and_le(x >> s, 15);
        lemma_append_digit(x >> (s + 4), (x >> s) & 15);
        assert(((26 - k) * 4) as u128 == s + 4);
        assert(((24 - (k - 1)) * 4) as u128 == s);
    }
}

/// Law: folding the hex digits of a 100-bit value gives the value back.
pub proof fn lemma_hex_digits_roundtrip(x: u128)
    requires
        x <= SECRET_DATA_MASK,
    ensures
        spec_hex_fold(spec_hex_digits(x), 25) == x,
{
    lemma_fold_hex_digits_prefix(x, 25);
    lemma_shr_ends(x);
}

/// Law: the hex digits of folded digits are those digits.
pub proof fn lemma_hex_fold_roundtrip(ds: Seq<u16>)
    requires
        ds.len() == 25,
        is_hex_digit_seq(ds),
    ensures
        spec_hex_fold(ds, 25) <= SECRET_DATA_MASK,
        spec_hex_digits(spec_hex_fold(ds, 25)) == ds,
{
    lemma_hex_fold_bound(ds, 25);
    reveal_with_fuel(pow16, 26);
    let x = spec_hex_fold(ds, 25);
    let ds2 = spec_hex_digits(x);
    assert forall|i: int| 0 <= i < 25 implies #[trigger] ds2[i] < 16 by {
        let sh = ((24 - i) * 4) as u128;
        assert((x >> sh) & 15 < 16) by { lemma_and_le(x >> sh, 15); }
    }
    lemma_hex_digits_roundtrip(x);
    lemma_hex_fold_injective(ds, ds2, 25);
    assert(ds.take(25) =~= ds);
    assert(ds2.take(25) =~= ds2);
}

/// What encrypting the low 100 bits of `data` under `key` gives.
pub open spec fn spec_encrypt(data: u128, key: Seq<u8>) -> u128 {
    let ds = ff1_encrypt_digits(key, spec_hex_digits(data & SECRET_DATA_MASK));
    spec_hex_fold(ds, ds.len() as int)
}

/// What decrypting the low 100 bits of `data` under `key` gives.
pub open spec fn spec_decrypt(data: u128, key: Seq<u8>) -> u128 {
    let ds = ff1_decrypt_digits(key, spec_hex_digits(data & SECRET_DATA_MASK));
    spec_hex_fold(ds, ds.len() as int)
}

proof fn lemma_mask_below_secret(x: u128)
    ensures
        x & SECRET_DATA_MASK <= SECRET_DATA_MASK,
        x <= SECRET_DATA_MASK ==> x & SECRET_DATA_MASK == x,
{
    assert(x & 0x0000000f_ffff_ffff_ffff_ffffffffffffu128 <= 0x0000000f_ffff_ffff_ffff_ffffffffffffu128
        && (x <= 0x0000000f_ffff_ffff_ffff_ffffffffffffu128 ==> x
        & 0x0000000f_ffff_ffff_ffff_ffffffffffffu128 == x)) by (bit_vector);
}

/// Encrypts the low 100 bits of `id_secret_data` with FF1; the result has at most
/// 100 bits, and decrypting it with the same key gives the low 100 bits back.
pub fn encrypt(id_secret_data: u128, key: &EncryptionKey) -> (r: u128)
    ensures
        r == spec_encrypt(id_secret_data, key@),
        r <= SECRET_DATA_MASK,
        spec_decrypt(r, key@) == id_secret_data & SECRET_DATA_MASK,
{
    let mask = SECRET_DATA_MASK;
    let data = id_secret_data & mask;
    let hex_digits = u128_to_hex_digits(data);
    let encrypted = ff1_encrypt(key.as_bytes(), hex_digits);
    let r = hex_digits_to_u128(encrypted.as_slice());
    proof {
        lemma_hex_fold_roundtrip(encrypted@);
        lemma_mask_below_secret(r);
        lemma_mask_below_secret(id_secret_data);
        lemma_hex_digits_roundtrip(data);
    }
    r
}

/// Decrypts the low 100 bits of `id_secret_data` with FF1; the result has at most
/// 100 bits, and encrypting it with the same key gives the low 100 bits back.
pub fn decrypt(id_secret_data: u128, key: &EncryptionKey) -> (r: u128)
    ensures
        r == spec_decrypt(id_secret_data, key@),
        r <= SECRET_DATA_MASK,
        spec_encrypt(r, key@) == id_secret_data & SECRET_DATA_MASK,
{
    let mask = SECRET_DATA_MASK;
    let data = id_secret_data & mask;
    let hex_digits = u128_to_hex_digits(data);
    let decrypted = ff1_decrypt(key.as_bytes(), hex_digits);
    let r = hex_digits_to_u128(decrypted.as_slice());
    proof {
        lemma_hex_fold_roundtrip(decrypted@);
        lemma_mask_below_secret(r);
        lemma_mask_below_secret(id_secret_data);
        lemma_hex_digits_roundtrip(data);
    }
    r
}

/// `id` with its payload replaced by the encryption of its payload and variant 1.
pub open spec fn spec_encrypt_id(id: u128, key: Seq<u8>) -> u128 {
    spec_change_variant(
        (id & !COMPLETE_SECRET_DATA_MASK) | spec_expand_secret_data_bits(
            spec_encrypt(spec_extract_secret_data_bits(id), key),
        ),
        1,
    )
}

/// `id` with its payload replaced by the decryption of its payload and variant 0.
pub open spec fn spec_decrypt_id(id: u128, key: Seq<u8>) -> u128 {
    spec_change_variant(
        (id & !COMPLETE_SECRET_DATA_MASK) | spec_expand_secret_data_bits(
            spec_decrypt(spec_extract_secret_data_bits(id), key),
        ),
        0,
    )
}

/// What encrypting an id gives: v0 ids are encrypted, v1 ids are returned as they
/// are, and v2/v3 ids are refused.
pub open spec fn spec_encrypt_id_v0_to_v1(id: u128, key: Seq<u8>) -> Result<u128, EncryptionError> {
    match spec_variant_of_id(id) {
        TNIDVariant::V0 => Ok(spec_encrypt_id(id, key)),
        TNIDVariant::V1 => Ok(id),
        v => Err(EncryptionError::UnsupportedVariant(v)),
    }
}

/// What decrypting an id gives: v1 ids are decrypted, v0 ids are returned as they
/// are, and v2/v3 ids are refused.
pub open spec fn spec_decrypt_id_v1_to_v0(id: u128, key: Seq<u8>) -> Result<u128, EncryptionError> {
    match spec_variant_of_id(id) {
        TNIDVariant::V0 => Ok(id),
        TNIDVariant::V1 => Ok(spec_decrypt_id(id, key)),
        v => Err(EncryptionError::UnsupportedVariant(v)),
    }
}

/// Bits outside the payload and the TNID variant.
pub const KEPT_BITS_MASK: u128 = 0xfffff000_0000_f000_c000_000000000000;

/// Replacing the payload of `id` (of variant `from`) with `e` and setting the variant
/// `to` keeps the other bits, and doing the reverse with the old payload restores `id`.
proof fn lemma_replace_payload(id: u128, e: u128, from: u8, to: u8)
    requires
        e <= SECRET_DATA_MASK,
        from < 4,
        to < 4,
        (id >> 60u128) & 3 == from as u128,
    ensures
        ({
            let x = spec_change_variant(
                (id & !COMPLETE_SECRET_DATA_MASK) | spec_expand_secret_data_bits(e),
                to,
            );
            &&& (x >> 60u128) & 3 == to as u128
            &&& spec_extract_secret_data_bits(x) == e
            &&& x & KEPT_BITS_MASK == id & KEPT_BITS_MASK
            &&& spec_change_variant(
                (x & !COMPLETE_SECRET_DATA_MASK) | spec_expand_secret_data_bits(
                    spec_extract_secret_data_bits(id),
                ),
                from,
            ) == id
        }),
{
    let cs = 0x00000fff_ffff_0fff_0fff_ffffffffffffu128;
    let r = 0x00000000_0000_0000_0fff_ffffffffffffu128;
    let m = 0x00000000_0000_0fff_0000_000000000000u128;
    let l = 0x00000fff_ffff_0000_0000_000000000000u128;
    let ex = (e & r) | ((e & (m >> 4u128)) << 4u128) | ((e & (l >> 8u128)) << 8u128);
    let x = ((id & !cs) | ex) & !(3u128 << 60u128) | ((to as u128) << 60u128);
    let d = (id & r) | ((id & m) >> 4u128) | ((id & l) >> 8u128);
    let ed = (d & r) | ((d & (m >> 4u128)) << 4u128) | ((d & (l >> 8u128)) << 8u128);
    assert((x >> 60u128) & 3 == to as u128) by (bit_vector)
        requires
            to < 4,
            x == ((id & !cs) | ex) & !(3u128 << 60u128) | ((to as u128) << 60u128),
            cs == 0x00000fff_ffff_0fff_0fff_ffffffffffffu128,
            ex == (e & r) | ((e & (m >> 4u128)) << 4u128) | ((e & (l >> 8u128)) << 8u128),
            r == 0x00000000_0000_0000_0fff_ffffffffffffu128,
            m == 0x00000000_0000_0fff_0000_000000000000u128,
            l == 0x00000fff_ffff_0000_0000_000000000000u128,
    ;
    assert((x & r) | ((x & m) >> 4u128) | ((x & l) >> 8u128) == e) by (bit_vector)
        requires
            e <= 0x0000000f_ffff_ffff_ffff_ffffffffffffu128,
            to < 4,
            x == ((id & !cs) | ex) & !(3u128 << 60u128) | ((to as u128) << 60u128),
            cs == 0x00000fff_ffff_0fff_0fff_ffffffffffffu128,
            ex == (e & r) | ((e & (m >> 4u128)) << 4u128) | ((e & (l >> 8u128)) << 8u128),
            r == 0x00000000_0000_0000_0fff_ffffffffffffu128,
            m == 0x00000000_0000_0fff_0000_000000000000u128,
            l == 0x00000fff_ffff_0000_0000_000000000000u128,
    ;
    assert(x & 0xfffff000_0000_f000_c000_000000000000u128 == id
        & 0xfffff000_0000_f000_c000_000000000000u128) by (bit_vector)
        requires
            to < 4,
            x == ((id & !cs) | ex) & !(3u128 << 60u128) | ((to as u128) << 60u128),
            cs == 0x00000fff_ffff_0fff_0fff_ffffffffffffu128,
            ex == (e & r) | ((e & (m >> 4u128)) << 4u128) | ((e & (l >> 8u128)) << 8u128),
            r == 0x00000000_0000_0000_0fff_ffffffffffffu128,
            m == 0x00000000_0000_0fff_0000_000000000000u128,
            l == 0x00000fff_ffff_0000_0000_000000000000u128,
    ;
    assert(((x & !cs) | ed) & !(3u128 << 60u128) | ((from as u128) << 60u128) == id) by (bit_vector)
        requires
            to < 4,
            from < 4,
            (id >> 60u128) & 3 == from as u128,
            x == ((id & !cs) | ex) & !(3u128 << 60u128) | ((to as u128) << 60u128),
            cs == 0x00000fff_ffff_0fff_0fff_ffffffffffffu128,
            ex == (e & r) | ((e & (m >> 4u128)) << 4u128) | ((e & (l >> 8u128)) << 8u128),
            d == (id & r) | ((id & m) >> 4u128) | ((id & l) >> 8u128),
            ed == (d & r) | ((d & (m >> 4u128)) << 4u128) | ((d & (l >> 8u128)) << 8u128),
            r == 0x00000000_0000_0000_0fff_ffffffffffffu128,
            m == 0x00000000_0000_0fff_0000_000000000000u128,
            l == 0x00000fff_ffff_0000_0000_000000000000u128,
    ;
}

/// Encrypts a v0 id to a v1 id with the same name, hiding its timestamp.
///
/// A v1 id comes back unchanged and v2/v3 ids are refused. Decrypting the result of
/// a v0 id with the same key gives the id back.
pub fn encrypt_id_v0_to_v1(id: u128, key: &EncryptionKey) -> (r: Result<u128, EncryptionError>)
    ensures
        r == spec_encrypt_id_v0_to_v1(id, key@),
        spec_variant_of_id(id) == TNIDVariant::V0 ==> (r matches Ok(e) && spec_variant_of_id(e)
            == TNIDVariant::V1 && e & KEPT_BITS_MASK == id & KEPT_BITS_MASK
            && spec_decrypt_id_v1_to_v0(e, key@) == Ok::<u128, EncryptionError>(id)),
{
    match TNIDVariant::from_id(id) {
        TNIDVariant::V0 => {},
        TNIDVariant::V1 => {
            return Ok(id);
        },
        variant => {
            return Err(EncryptionError::UnsupportedVariant(variant));
        },
    }
    let secret_data = extract_secret_data_bits(id);
    let encrypted_data = encrypt(secret_data, key);
    let expanded = expand_secret_data_bits(encrypted_data);
    let id2 = (id & !COMPLETE_SECRET_DATA_MASK) | expanded;
    let r = change_variant(id2, TNIDVariant::V1);
    proof {
        lemma_secret_data_bits(id, 0);
        lemma_mask_below_secret(secret_data);
        assert((id >> 60u128) & 3 < 4) by { lemma_and_le(id >> 60u128, 3); }
        lemma_replace_payload(id, encrypted_data, 0, 1);
    }
    Ok(r)
}

/// Decrypts a v1 id back to the v0 id it was encrypted from.
///
/// A v0 id comes back unchanged and v2/v3 ids are refused. Encrypting the result of
/// a v1 id with the same key gives the id back.
pub fn decrypt_id_v1_to_v0(id: u128, key: &EncryptionKey) -> (r: Result<u128, EncryptionError>)
    ensures
        r == spec_decrypt_id_v1_to_v0(id, key@),
        spec_variant_of_id(id) == TNIDVariant::V1 ==> (r matches Ok(d) && spec_variant_of_id(d)
            == TNIDVariant::V0 && d & KEPT_BITS_MASK == id & KEPT_BITS_MASK
            && spec_encrypt_id_v0_to_v1(d, key@) == Ok::<u128, EncryptionError>(id)),
{
    match TNIDVariant::from_id(id) {
        TNIDVariant::V0 => {
            return Ok(id);
        },
        TNIDVariant::V1 => {},
        variant => {
            return Err(EncryptionError::UnsupportedVariant(variant));
        },
    }
    let encrypted_data = extract_secret_data_bits(id);
    let decrypted_data = decrypt(encrypted_data, key);
    let expanded = expand_secret_data_bits(decrypted_data);
    let id2 = (id & !COMPLETE_SECRET_DATA_MASK) | expanded;
    let r = change_variant(id2, TNIDVariant::V0);
    proof {
        lemma_secret_data_bits(id, 0);
        lemma_mask_below_secret(encrypted_data);
        assert((id >> 60u128) & 3 < 4) by { lemma_and_le(id >> 60u128, 3); }
        lemma_replace_payload(id, decrypted_data, 1, 0);
    }
    Ok(r)
}

} // verus!
