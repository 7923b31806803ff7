//! TNID data encoding: the 102 data bits of an id (the TNID variant and the
//! payload, without the name and the UUID version/variant bits) written as 17
//! characters of 6 bits each, most significant first, in an alphabet whose
//! order follows ASCII order:
//! `-0123456789ABCDEFGHIJKLMNOPQRSTUVWXYZ_abcdefghijklmnopqrstuvwxyz`.
use vstd::prelude::*;

use crate::bits::{lemma_and_le, lemma_shr_ends, lemma_split_digit};

use crate::text::{pad_left, push_char, push_decimal, push_hex, push_str, spec_decimal, spec_digits};
use vstd::string::StringSliceAdditionalSpecFns;

verus! {

broadcast use vstd::string::is_ascii_spec_bytes;

/// Number of bits each char decodes to.
pub const CHAR_BIT_LENGTH: u8 = 6;

/// Number of data bits in a TNID.
pub const DATA_BIT_NUM: u8 = 102;

/// Number of chars needed to encode all the [`DATA_BIT_NUM`] bits.
pub const DATA_CHAR_ENCODING_LEN: u8 = 17;

/// Data bits 0-61 (they include the TNID variant bits 60-61); they stay in place.
pub const RIGHT_DATA_SECTION_MASK: u128 = 0x00000000_0000_0000_3fff_ffffffffffff;

/// Data bits 64-75 (between the UUID variant and the UUID version bits).
pub const MIDDLE_DATA_SECTION_MASK: u128 = 0x00000000_0000_0fff_0000_000000000000;

/// Data bits 80-107 (between the UUID version bits and the name).
pub const LEFT_DATA_SECTION_MASK: u128 = 0x00000fff_ffff_0000_0000_000000000000;

/// All 102 data bits of an id.
pub const COMPLETE_DATA_MASK: u128 = 0x00000fff_ffff_0fff_3fff_ffffffffffff;

/// The low 102 bits, where compacted data lives.
pub const COMPACT_DATA_MASK: u128 = 0x0000003f_ffff_ffff_ffff_ffffffffffff;

/// The data alphabet: each 6-bit value with the ASCII byte it stands for, in
/// increasing byte order.
pub const CHAR_MAPPING: [(u8, u8); 64] = [
    (0, 45), (1, 48), (2, 49), (3, 50), (4, 51), (5, 52), (6, 53), (7, 54),
    (8, 55), (9, 56), (10, 57), (11, 65), (12, 66), (13, 67), (14, 68), (15, 69),
    (16, 70), (17, 71), (18, 72), (19, 73), (20, 74), (21, 75), (22, 76), (23, 77),
    (24, 78), (25, 79), (26, 80), (27, 81), (28, 82), (29, 83), (30, 84), (31, 85),
    (32, 86), (33, 87), (34, 88), (35, 89), (36, 90), (37, 95), (38, 97), (39, 98),
    (40, 99), (41, 100), (42, 101), (43, 102), (44, 103), (45, 104), (46, 105), (47, 106),
    (48, 107), (49, 108), (50, 109), (51, 110), (52, 111), (53, 112), (54, 113), (55, 114),
    (56, 115), (57, 116), (58, 117), (59, 118), (60, 119), (61, 120), (62, 121), (63, 122),
];

/// Error when decoding the data part of a TNID string.
#[derive(Debug, Clone, Copy, PartialEq, Eq)]
pub enum DataEncodingError {
    /// The data part is not 17 bytes long (holds the byte length).
    WrongLength(usize),
    /// A byte outside the data alphabet, with its position.
    InvalidChar { position: usize, byte: u8 },
}

/// The description of a data string error.
pub open spec fn spec_data_error_message(e: DataEncodingError) -> Seq<char> {
    match e {
        DataEncodingError::WrongLength(len) => "data string must be 17 characters, got "@
            + spec_decimal(len as nat),
        DataEncodingError::InvalidChar { position, byte } => "invalid data character '"@ + seq![
            byte as char,
        ] + "' (0x"@ + pad_left(spec_digits(byte as nat, 16, false), 2, '0') + ") at position "@
            + spec_decimal(position as nat),
    }
}

impl DataEncodingError {
    /// A description of the error.
    pub fn message(&self) -> (r: String)
        ensures
            r@ == spec_data_error_message(*self),
    {
        let mut s = String::new();
        match self {
            DataEncodingError::WrongLength(len) => {
                push_str(&mut s, "data string must be 17 characters, got ");
                push_decimal(&mut s, *len as u128);
            },
            DataEncodingError::InvalidChar { position, byte } => {
                push_str(&mut s, "invalid data character '");
                push_char(&mut s, *byte as char);
                push_str(&mut s, "' (0x");
                push_hex(&mut s, *byte as u128, 2, false);
                push_str(&mut s, ") at position ");
                push_decimal(&mut s, *position as u128);
            },
        }
        proof {
            assert(s@ =~= spec_data_error_message(*self));
        }
        s
    }
}

/// The character for a 6-bit value.
pub open spec fn data_char(v: int) -> char {
    if v == 0 {
        '-'
    } else if v <= 10 {
        (v + 47) as char
    } else if v <= 36 {
        (v + 54) as char
    } else if v == 37 {
        '_'
    } else {
        (v + 59) as char
    }
}

/// The 6-bit value of a character of the data alphabet.
pub open spec fn data_char_value(c: int) -> Option<u8> {
    if c == 45 {
        Some(0u8)
    } else if 48 <= c <= 57 {
        Some((c - 47) as u8)
    } else if 65 <= c <= 90 {
        Some((c - 54) as u8)
    } else if c == 95 {
        Some(37u8)
    } else if 97 <= c <= 122 {
        Some((c - 59) as u8)
    } else {
        None
    }
}

/// The 102 data bits of `id`, compacted into the low bits.
pub open spec fn spec_extract_data_bits(id: u128) -> u128 {
    (id & RIGHT_DATA_SECTION_MASK) | ((id & MIDDLE_DATA_SECTION_MASK) >> 2u128) | ((id
        & LEFT_DATA_SECTION_MASK) >> 6u128)
}

/// Compacted data bits moved back to their positions in an id.
pub open spec fn spec_expand_data_bits(c: u128) -> u128 {
    (c & RIGHT_DATA_SECTION_MASK) | ((c & (MIDDLE_DATA_SECTION_MASK >> 2u128)) << 2u128) | ((c
        & (LEFT_DATA_SECTION_MASK >> 6u128)) << 6u128)
}

/// The 6-bit digit `i` (0 is the most significant) of compacted data `x`.
pub open spec fn data_digit(x: u128, i: int) -> u128 {
    (x >> ((16 - i) * 6) as u128) & 63
}

/// The data string of compacted data bits.
pub open spec fn spec_compact_data_string(x: u128) -> Seq<char> {
    Seq::new(17, |i: int| data_char(data_digit(x, i) as int))
}

/// The data string of an id: its 102 data bits as 17 characters.
pub open spec fn spec_data_string(id: u128) -> Seq<char> {
    spec_compact_data_string(spec_extract_data_bits(id))
}

/// Whether every byte is in the data alphabet.
pub open spec fn is_data_bytes(b: Seq<u8>) -> bool {
    forall|i: int| 0 <= i < b.len() ==> (#[trigger] data_char_value(b[i] as int)) is Some
}

/// The value of the first `k` bytes, 6 bits each, first byte most significant.
pub open spec fn data_prefix_value(b: Seq<u8>, k: int) -> int
    decreases k,
{
    if k <= 0 {
        0
    } else {
        data_prefix_value(b, k - 1) * 64 + data_char_value(b[k - 1] as int).unwrap() as int
    }
}

/// Position of the first byte outside the data alphabet (the length if none).
pub open spec fn first_non_data_byte(b: Seq<u8>, from: int) -> int
    decreases b.len() - from,
{
    if from >= b.len() || from < 0 {
        b.len() as int
    } else if data_char_value(b[from] as int) is None {
        from
    } else {
        first_non_data_byte(b, from + 1)
    }
}

/// What decoding the bytes of a data string gives.
pub open spec fn spec_string_to_id_data(b: Seq<u8>) -> Result<u128, DataEncodingError> {
    if b.len() != 17 {
        Err(DataEncodingError::WrongLength(b.len() as usize))
    } else if !is_data_bytes(b) {
        Err(
            DataEncodingError::InvalidChar {
                position: first_non_data_byte(b, 0) as usize,
                byte: b[first_non_data_byte(b, 0)],
            },
        )
    } else {
        Ok(data_prefix_value(b, 17) as u128)
    }
}

/// The character of a 6-bit value.
fn data_value_char(v: u8) -> (c: char)
    requires
        v < 64,
    ensures
        c == data_char(v as int),
        c as int <= 127,
{
    if v == 0 {
        '-'
    } else if v <= 10 {
        (v + 47) as char
    } else if v <= 36 {
        (v + 54) as char
    } else if v == 37 {
        '_'
    } else {
        (v + 59) as char
    }
}

/// The 6-bit value of a byte of the data alphabet.
fn data_byte_value(b: u8) -> (r: Option<u8>)
    ensures
        r == data_char_value(b as int),
{
    if b == 45 {
        Some(0)
    } else if 48 <= b && b <= 57 {
        Some(b - 47)
    } else if 65 <= b && b <= 90 {
        Some(b - 54)
    } else if b == 95 {
        Some(37)
    } else if 97 <= b && b <= 122 {
        Some(b - 59)
    } else {
        None
    }
}

/// Get all bits except the name and UUID parts, compacted into the low 102 bits.
pub fn extract_data_bits(id: u128) -> (r: u128)
    ensures
        r == spec_extract_data_bits(id),
        r <= COMPACT_DATA_MASK,
{
    let extracted = id & RIGHT_DATA_SECTION_MASK;
    let extracted = extracted | ((id & MIDDLE_DATA_SECTION_MASK) >> 2u128);
    let r = extracted | ((id & LEFT_DATA_SECTION_MASK) >> 6u128);
    proof {
        lemma_extract_data_bound(id);
    }
    r
}

/// Expand compacted data bits back into their positions (inverse of [`extract_data_bits`]).
pub fn expand_data_bits(compact_bits: u128) -> (r: u128)
    ensures
        r == spec_expand_data_bits(compact_bits),
{
    let expanded = compact_bits & RIGHT_DATA_SECTION_MASK;
    let middle_mask = MIDDLE_DATA_SECTION_MASK >> 2u128;
    let expanded = expanded | ((compact_bits & middle_mask) << 2u128);
    let left_mask = LEFT_DATA_SECTION_MASK >> 6u128;
    expanded | ((compact_bits & left_mask) << 6u128)
}

/// The extracted data fits in 102 bits.
pub proof fn lemma_extract_data_bound(id: u128)
    ensures
        spec_extract_data_bits(id) <= COMPACT_DATA_MASK,
{
    assert(((id & 0x00000000_0000_0000_3fff_ffffffffffffu128) | ((id
        & 0x00000000_0000_0fff_0000_000000000000u128) >> 2u128) | ((id
        & 0x00000fff_ffff_0000_0000_000000000000u128) >> 6u128))
        <= 0x0000003f_ffff_ffff_ffff_ffffffffffffu128) by (bit_vector);
}

/// Law: expanding extracted data gives back exactly the data bits of the id.
pub proof fn lemma_expand_extract_data(id: u128)
    ensures
        spec_expand_data_bits(spec_extract_data_bits(id)) == id & COMPLETE_DATA_MASK,
{
    let r = 0x00000000_0000_0000_3fff_ffffffffffffu128;
    let m = 0x00000000_0000_0fff_0000_000000000000u128;
    let l = 0x00000fff_ffff_0000_0000_000000000000u128;
    let x = (id & r) | ((id & m) >> 2u128) | ((id & l) >> 6u128);
    assert((x & r) | ((x & (m >> 2u128)) << 2u128) | ((x & (l >> 6u128)) << 6u128) == id
        & 0x00000fff_ffff_0fff_3fff_ffffffffffffu128) by (bit_vector)
        requires
            r == 0x00000000_0000_0000_3fff_ffffffffffffu128,
            m == 0x00000000_0000_0fff_0000_000000000000u128,
            l == 0x00000fff_ffff_0000_0000_000000000000u128,
            x == (id & r) | ((id & m) >> 2u128) | ((id & l) >> 6u128),
    ;
}

/// Law: extracting expanded data gives back the low 102 bits of the compacted data.
pub proof fn lemma_extract_expand_data(c: u128)
    ensures
        spec_extract_data_bits(spec_expand_data_bits(c)) == c & COMPACT_DATA_MASK,
        spec_expand_data_bits(c) & COMPLETE_DATA_MASK == spec_expand_data_bits(c),
{
    let r = 0x00000000_0000_0000_3fff_ffffffffffffu128;
    let m = 0x00000000_0000_0fff_0000_000000000000u128;
    let l = 0x00000fff_ffff_0000_0000_000000000000u128;
    let e = (c & r) | ((c & (m >> 2u128)) << 2u128) | ((c & (l >> 6u128)) << 6u128);
    assert((e & r) | ((e & m) >> 2u128) | ((e & l) >> 6u128) == c
        & 0x0000003f_ffff_ffff_ffff_ffffffffffffu128 && e & 0x00000fff_ffff_0fff_3fff_ffffffffffffu128
        == e) by (bit_vector)
        requires
            r == 0x00000000_0000_0000_3fff_ffffffffffffu128,
            m == 0x00000000_0000_0fff_0000_000000000000u128,
            l == 0x00000fff_ffff_0000_0000_000000000000u128,
            e == (c & r) | ((c & (m >> 2u128)) << 2u128) | ((c & (l >> 6u128)) << 6u128),
    ;
}

/// Encodes the data bits of `id` as a 17-character string.
pub fn id_data_to_string(id: u128) -> (r: String)
    ensures
        r@ == spec_data_string(id),
{
    let data = extract_data_bits(id);
    compact_data_to_string(data)
}

/// Encodes compacted data bits as a 17-character string.
pub fn compact_data_to_string(data: u128) -> (r: String)
    ensures
        r@ == spec_compact_data_string(data),
{
    let mut s = String::new();
    let mut i: usize = 0;
    while i < 17
        invariant
            i <= 17,
            s@ == spec_compact_data_string(data).take(i as int),
        decreases 17 - i,
    {
        let shift = ((16 - i) * 6) as u128;
        let char_val = ((data >> shift) & 63) as u8;
        assert((data >> shift) & 63 < 64) by { lemma_and_le(data >> shift, 63); }
        push_char(&mut s, data_value_char(char_val));
        proof {
            assert(s@ =~= spec_compact_data_string(data).take(i + 1));
        }
        i += 1;
    }
    proof {
        assert(s@ =~= spec_compact_data_string(data));
    }
    s
}

proof fn lemma_first_non_data_byte(b: Seq<u8>, from: int, i: int)
    requires
        0 <= from <= i < b.len(),
        forall|k: int| from <= k < i ==> (#[trigger] data_char_value(b[k] as int)) is Some,
        data_char_value(b[i] as int) is None,
    ensures
        first_non_data_byte(b, from) == i,
    decreases i - from,
{
    if from < i {
        lemma_first_non_data_byte(b, from + 1, i);
    }
}

proof fn lemma_data_prefix_bound(b: Seq<u8>, k: int)
    requires
        0 <= k <= b.len(),
        forall|j: int| 0 <= j < k ==> (#[trigger] data_char_value(b[j] as int)) is Some,
    ensures
        0 <= data_prefix_value(b, k) < pow64(k as nat),
    decreases k,
{
    if k > 0 {
        lemma_data_prefix_bound(b, k - 1);
        let v = data_char_value(b[k - 1] as int).unwrap() as int;
        assert(v < 64);
        let p = data_prefix_value(b, k - 1);
        let q = pow64((k - 1) as nat);
        assert(p * 64 + v < q * 64) by (nonlinear_arith)
            requires
                0 <= p < q,
                0 <= v < 64,
        ;
    }
}

/// `64` to the power `i`.
pub open spec fn pow64(i: nat) -> int
    decreases i,
{
    if i == 0 {
        1
    } else {
        pow64((i - 1) as nat) * 64
    }
}

/// Decodes the data part of a TNID string to its 102 compacted data bits.
pub fn string_to_id_data(s: &str) -> (r: Result<u128, DataEncodingError>)
    ensures
        r == spec_string_to_id_data(s.spec_bytes()),
{
    data_bytes_to_id_data(s.as_bytes())
}

/// Decodes the bytes of the data part of a TNID string.
pub(crate) fn data_bytes_to_id_data(bytes: &[u8]) -> (r: Result<u128, DataEncodingError>)
    ensures
        r == spec_string_to_id_data(bytes@),
{
    if bytes.len() != 17 {
        return Err(DataEncodingError::WrongLength(bytes.len()));
    }
    let mut result: u128 = 0;
    let mut i: usize = 0;
    while i < 17
        invariant
            bytes@.len() == 17,
            i <= 17,
            forall|k: int| 0 <= k < i ==> (#[trigger] data_char_value(bytes@[k] as int)) is Some,
            result == data_prefix_value(bytes@, i as int),
        decreases 17 - i,
    {
        let c = bytes[i];
        match data_byte_value(c) {
            None => {
                proof {
                    lemma_first_non_data_byte(bytes@, 0, i as int);
                }
                return Err(DataEncodingError::InvalidChar { position: i, byte: c });
            },
            Some(value) => {
                proof {
                    lemma_data_prefix_bound(bytes@, i as int);
                    reveal_with_fuel(pow64, 18);
                    assert(pow64(i as nat) <= pow64(16)) by {
                        lemma_pow64_mono(i as nat, 16);
                    }
                }
                result = result * 64 + value as u128;
            },
        }
        i += 1;
    }
    proof {
        assert(is_data_bytes(bytes@));
    }
    Ok(result)
}

proof fn lemma_pow64_mono(a: nat, b: nat)
    requires
        a <= b,
    ensures
        pow64(a) <= pow64(b),
        pow64(a) >= 1,
    decreases b,
{
    if a < b {
        lemma_pow64_mono(a, (b - 1) as nat);
    } else if a > 0 {
        lemma_pow64_mono((a - 1) as nat, (a - 1) as nat);
    }
}

proof fn lemma_shift_digit(x: u128, s: u128)
    requires
        s <= 96,
    ensures
        ((x >> (s + 6)) * 64 + ((x >> s) & 63)) as int == (x >> s) as int,
{
    lemma_split_digit(x, s);
}

/// The data alphabet is ASCII and each character decodes to its value.
pub proof fn lemma_data_char_value(v: int)
    requires
        0 <= v < 64,
    ensures
        data_char(v) as int <= 127,
        data_char_value(data_char(v) as int) == Some(v as u8),
        (data_char(v) as u8) as int == data_char(v) as int,
{
}

/// Decoding the bytes that spell the digits of `x` gives the shifted `x` back.
proof fn lemma_data_prefix_digits(b: Seq<u8>, x: u128, k: int)
    requires
        x <= COMPACT_DATA_MASK,
        b.len() == 17,
        0 <= k <= 17,
        forall|i: int|
            0 <= i < 17 ==> #[trigger] data_char_value(b[i] as int) == Some(
                data_digit(x, i) as u8,
            ),
    ensures
        data_prefix_value(b, k) == (x >> ((17 - k) * 6) as u128) as int,
    decreases k,
{
    if k == 0 {
        assert(x <= 0x0000003f_ffff_ffff_ffff_ffffffffffffu128 ==> x >> 102u128 == 0) by (bit_vector);
    } else {
        lemma_data_prefix_digits(b, x, k - 1);
        let s = ((17 - k) * 6) as u128;
        lemma_shift_digit(x, s);
        assert(data_char_value(b[k - 1] as int) == Some(data_digit(x, k - 1) as u8));
        assert(((17 - (k - 1)) * 6) as u128 == s + 6);
        assert(((16 - (k - 1)) * 6) as u128 == s);
        assert(data_digit(x, k - 1) < 64) by {
            assert((x >> s) & 63 < 64) by { lemma_and_le(x >> s, 63); }
        }
    }
}

/// The bytes of a data string are its characters.
pub proof fn lemma_compact_data_string_bytes(x: u128, s: &str)
    requires
        s@ == spec_compact_data_string(x),
    ensures
        vstd::string::is_ascii(s),
        s.spec_bytes().len() == 17,
        forall|i: int|
            0 <= i < 17 ==> #[trigger] data_char_value(s.spec_bytes()[i] as int) == Some(
                data_digit(x, i) as u8,
            ),
        is_data_bytes(s.spec_bytes()),
{
    assert forall|i: int| 0 <= i < 17 implies data_digit(x, i) < 64 by {
        let sh = ((16 - i) * 6) as u128;
        assert((x >> sh) & 63 < 64) by { lemma_and_le(x >> sh, 63); }
    }
    assert forall|i: int| 0 <= i < s@.len() implies '\0' <= #[trigger] s@[i] <= '\u{7f}' by {
        lemma_data_char_value(data_digit(x, i) as int);
    }
    vstd::string::is_ascii_spec_bytes(s);
    assert forall|i: int| 0 <= i < 17 implies #[trigger] data_char_value(
        s.spec_bytes()[i] as int,
    ) == Some(data_digit(x, i) as u8) by {
        lemma_data_char_value(data_digit(x, i) as int);
    }
}

/// The bytes of the data string of compacted data.
pub open spec fn spec_compact_data_bytes(x: u128) -> Seq<u8> {
    Seq::new(17, |i: int| data_char(data_digit(x, i) as int) as u8)
}

/// Decoding the bytes of the data string of compacted data gives the data back.
pub proof fn lemma_compact_data_bytes_roundtrip(x: u128)
    requires
        x <= COMPACT_DATA_MASK,
    ensures
        spec_string_to_id_data(spec_compact_data_bytes(x)) == Ok::<u128, DataEncodingError>(x),
        forall|i: int|
            0 <= i < 17 ==> (#[trigger] spec_compact_data_bytes(x)[i]) as int == data_char(
                data_digit(x, i) as int,
            ) as int,
{
    let b = spec_compact_data_bytes(x);
    assert forall|i: int| 0 <= i < 17 implies #[trigger] data_char_value(b[i] as int) == Some(
        data_digit(x, i) as u8,
    ) by {
        let sh = ((16 - i) * 6) as u128;
        assert((x >> sh) & 63 < 64) by { lemma_and_le(x >> sh, 63); }
        lemma_data_char_value(data_digit(x, i) as int);
    }
    assert forall|i: int| 0 <= i < 17 implies (#[trigger] b[i]) as int == data_char(
        data_digit(x, i) as int,
    ) as int by {
        let sh = ((16 - i) * 6) as u128;
        assert((x >> sh) & 63 < 64) by { lemma_and_le(x >> sh, 63); }
        lemma_data_char_value(data_digit(x, i) as int);
    }
    assert(is_data_bytes(b));
    lemma_data_prefix_digits(b, x, 17);
    lemma_shr_ends(x);
}

/// Data bytes with the same value are the same bytes.
proof fn lemma_data_prefix_injective(b: Seq<u8>, c: Seq<u8>, k: int)
    requires
        is_data_bytes(b),
        is_data_bytes(c),
        0 <= k <= b.len(),
        k <= c.len(),
        data_prefix_value(b, k) == data_prefix_value(c, k),
    ensures
        forall|i: int| 0 <= i < k ==> b[i] == c[i],
    decreases k,
{
    if k > 0 {
        assert(data_char_value(b[k - 1] as int) is Some);
        assert(data_char_value(c[k - 1] as int) is Some);
        lemma_data_prefix_bound(b, k - 1);
        lemma_data_prefix_bound(c, k - 1);
        lemma_data_prefix_injective(b, c, k - 1);
    }
}

/// Law: data has exactly one spelling. Bytes that decode to some data are the data
/// string of that data.
pub proof fn lemma_data_string_canonical(b: Seq<u8>)
    requires
        spec_string_to_id_data(b) is Ok,
    ensures
        spec_string_to_id_data(b)->Ok_0 <= COMPACT_DATA_MASK,
        b == spec_compact_data_bytes(spec_string_to_id_data(b)->Ok_0),
{
    let x = data_prefix_value(b, 17);
    lemma_data_prefix_bound(b, 17);
    reveal_with_fuel(pow64, 18);
    assert(pow64(17) == 0x40000000000000000000000000);
    let v = x as u128;
    let c = spec_compact_data_bytes(v);
    lemma_compact_data_bytes_roundtrip(v);
    assert(c.len() == 17 && is_data_bytes(c));
    lemma_data_prefix_bound(c, 17);
    assert(data_prefix_value(c, 17) == x);
    lemma_data_prefix_injective(b, c, 17);
    assert(b =~= c);
}

/// The bytes of the data string of an id.
pub open spec fn spec_data_bytes(id: u128) -> Seq<u8> {
    spec_compact_data_bytes(spec_extract_data_bits(id))
}

/// The bytes of a data string are its characters.
pub proof fn lemma_data_string_bytes(id: u128, s: &str)
    requires
        s@ == spec_data_string(id),
    ensures
        s.spec_bytes() == spec_data_bytes(id),
{
    let x = spec_extract_data_bits(id);
    lemma_compact_data_string_bytes(x, s);
    assert forall|i: int| 0 <= i < 17 implies #[trigger] s.spec_bytes()[i] == spec_data_bytes(
        id,
    )[i] by {
        let sh = ((16 - i) * 6) as u128;
        assert((x >> sh) & 63 < 64) by { lemma_and_le(x >> sh, 63); }
        lemma_data_char_value(data_digit(x, i) as int);
    }
    assert(s.spec_bytes() =~= spec_data_bytes(id));
}

/// Law: decoding the data string of compacted data gives the data back.
pub proof fn lemma_compact_data_string_roundtrip(x: u128, s: &str)
    requires
        x <= COMPACT_DATA_MASK,
        s@ == spec_compact_data_string(x),
    ensures
        spec_string_to_id_data(s.spec_bytes()) == Ok::<u128, DataEncodingError>(x),
{
    lemma_compact_data_string_bytes(x, s);
    lemma_data_prefix_digits(s.spec_bytes(), x, 17);
    lemma_shr_ends(x);
}

/// Law: decoding the data string of an id gives the id's data bits.
pub proof fn lemma_data_string_roundtrip(id: u128, s: &str)
    requires
        s@ == spec_data_string(id),
    ensures
        spec_string_to_id_data(s.spec_bytes()) == Ok::<u128, DataEncodingError>(
            spec_extract_data_bits(id),
        ),
{
    lemma_extract_data_bound(id);
    lemma_compact_data_string_roundtrip(spec_extract_data_bits(id), s);
}

/// Law: the data alphabet table lists each 6-bit value with the character it encodes,
/// in increasing order of both.
pub proof fn lemma_data_char_mapping_matches()
    ensures
        forall|i: int|
            0 <= i < 64 ==> (#[trigger] CHAR_MAPPING@[i]).0 == i && CHAR_MAPPING@[i].1 as int
                == data_char(i) as int,
        forall|i: int, j: int|
            0 <= i < j < 64 ==> (#[trigger] CHAR_MAPPING@[i]).1 < (#[trigger] CHAR_MAPPING@[j]).1,
{
}

} // verus!
