//! 128-bit values that may or may not be TNIDs, and their UUID hex strings.
use vstd::prelude::*;

use crate::text::{pad_left, push_char, push_decimal, push_hex, push_str, spec_decimal, spec_digits};

use crate::bits::{lemma_and_le, lemma_shr_ends, lemma_split_digit};

use crate::utils::{
    hex_char_to_nibble, hex_value, lemma_pow16_mono, pow16, spec_nibble, spec_uuid_string,
    u128_to_uuid_string, uuid_digits_before, uuid_hyphen_pos, Case,
};
use vstd::string::StringSliceAdditionalSpecFns;

verus! {

broadcast use vstd::string::is_ascii_spec_bytes;

/// Error when parsing a UUID string.
#[derive(Debug, Clone, Copy, PartialEq, Eq)]
pub enum ParseUuidStringError {
    /// The string is not 36 bytes long (holds the byte length).
    WrongLength(usize),
    /// A hyphen is missing at the expected position (8, 13, 18 or 23).
    MissingHyphen(usize),
    /// An invalid hexadecimal character, with its position and byte.
    InvalidHexChar { position: usize, byte: u8 },
}

/// The description of a UUID string error.
pub open spec fn spec_uuid_error_message(e: ParseUuidStringError) -> Seq<char> {
    match e {
        ParseUuidStringError::WrongLength(len) => "UUID string must be 36 characters, got "@
            + spec_decimal(len as nat),
        ParseUuidStringError::MissingHyphen(pos) => "missing hyphen at position "@ + spec_decimal(
            pos as nat,
        ),
        ParseUuidStringError::InvalidHexChar { position, byte } => "invalid hex character '"@
            + seq![byte as char] + "' (0x"@ + pad_left(spec_digits(byte as nat, 16, false), 2, '0')
            + ") at position "@ + spec_decimal(position as nat),
    }
}

impl ParseUuidStringError {
    /// A description of the error.
    pub fn message(&self) -> (r: String)
        ensures
            r@ == spec_uuid_error_message(*self),
    {
        let mut s = String::new();
        match self {
            ParseUuidStringError::WrongLength(len) => {
                push_str(&mut s, "UUID string must be 36 characters, got ");
                push_decimal(&mut s, *len as u128);
            },
            ParseUuidStringError::MissingHyphen(pos) => {
                push_str(&mut s, "missing hyphen at position ");
                push_decimal(&mut s, *pos as u128);
            },
            ParseUuidStringError::InvalidHexChar { position, byte } => {
                push_str(&mut s, "invalid hex character '");
                push_char(&mut s, *byte as char);
                push_str(&mut s, "' (0x");
                push_hex(&mut s, *byte as u128, 2, false);
                push_str(&mut s, ") at position ");
                push_decimal(&mut s, *position as u128);
            },
        }
        proof {
            assert(s@ =~= spec_uuid_error_message(*self));
        }
        s
    }
}

/// A 128-bit value that may or may not be a valid TNID.
///
/// Accepts any value, so it can be used to inspect ids that do not parse as TNIDs
/// and to convert between UUID representations without validation.
#[derive(Debug, Clone, Copy, PartialEq, Eq, Hash, PartialOrd, Ord)]
pub struct UUIDLike(u128);

/// The name the typed API uses for [`UUIDLike`].
pub type UuidLike = UUIDLike;

impl View for UUIDLike {
    type V = u128;

    closed spec fn view(&self) -> u128 {
        self.0
    }
}

/// The first position among 8, 13, 18 and 23 that does not hold a hyphen.
pub open spec fn first_missing_hyphen(b: Seq<u8>) -> Option<int> {
    if b[8] != 45 {
        Some(8)
    } else if b[13] != 45 {
        Some(13)
    } else if b[18] != 45 {
        Some(18)
    } else if b[23] != 45 {
        Some(23)
    } else {
        None
    }
}

/// Position of the first non-hyphen position from `from` on that does not hold a hex
/// digit (36 if none).
pub open spec fn first_bad_uuid_digit(b: Seq<u8>, from: int) -> int
    decreases 36 - from,
{
    if from >= 36 || from < 0 {
        36
    } else if !uuid_hyphen_pos(from) && hex_value(b[from] as int) is None {
        from
    } else {
        first_bad_uuid_digit(b, from + 1)
    }
}

/// Whether every non-hyphen position holds a hex digit.
pub open spec fn uuid_digits_ok(b: Seq<u8>) -> bool {
    forall|i: int|
        0 <= i < 36 && !uuid_hyphen_pos(i) ==> (#[trigger] hex_value(b[i] as int)) is Some
}

/// The value of the hex digits among the first `p` bytes, most significant first.
pub open spec fn uuid_prefix_value(b: Seq<u8>, p: int) -> int
    decreases p,
{
    if p <= 0 {
        0
    } else if uuid_hyphen_pos(p - 1) {
        uuid_prefix_value(b, p - 1)
    } else {
        uuid_prefix_value(b, p - 1) * 16 + hex_value(b[p - 1] as int).unwrap() as int
    }
}

/// What parsing the bytes of a UUID string gives, in the order the checks are made.
pub open spec fn spec_parse_uuid(b: Seq<u8>) -> Result<u128, ParseUuidStringError> {
    if b.len() != 36 {
        Err(ParseUuidStringError::WrongLength(b.len() as usize))
    } else if first_missing_hyphen(b) is Some {
        Err(ParseUuidStringError::MissingHyphen(first_missing_hyphen(b).unwrap() as usize))
    } else if !uuid_digits_ok(b) {
        Err(
            ParseUuidStringError::InvalidHexChar {
                position: first_bad_uuid_digit(b, 0) as usize,
                byte: b[first_bad_uuid_digit(b, 0)],
            },
        )
    } else {
        Ok(uuid_prefix_value(b, 36) as u128)
    }
}

proof fn lemma_first_bad_uuid_digit(b: Seq<u8>, from: int, i: int)
    requires
        0 <= from <= i < 36,
        forall|k: int|
            from <= k < i && !uuid_hyphen_pos(k) ==> (#[trigger] hex_value(b[k] as int)) is Some,
        !uuid_hyphen_pos(i),
        hex_value(b[i] as int) is None,
    ensures
        first_bad_uuid_digit(b, from) == i,
    decreases i - from,
{
    if from < i {
        lemma_first_bad_uuid_digit(b, from + 1, i);
    }
}

/// Parses the bytes of a UUID string.
pub(crate) fn parse_uuid_bytes(bytes: &[u8]) -> (r: Result<u128, ParseUuidStringError>)
    ensures
        r == spec_parse_uuid(bytes@),
{
    if bytes.len() != 36 {
        return Err(ParseUuidStringError::WrongLength(bytes.len()));
    }
    if bytes[8] != 45 {
        return Err(ParseUuidStringError::MissingHyphen(8));
    }
    if bytes[13] != 45 {
        return Err(ParseUuidStringError::MissingHyphen(13));
    }
    if bytes[18] != 45 {
        return Err(ParseUuidStringError::MissingHyphen(18));
    }
    if bytes[23] != 45 {
        return Err(ParseUuidStringError::MissingHyphen(23));
    }
    let mut id: u128 = 0;
    let mut p: usize = 0;
    while p < 36
        invariant
            bytes@.len() == 36,
            first_missing_hyphen(bytes@) is None,
            p <= 36,
            forall|k: int|
                0 <= k < p && !uuid_hyphen_pos(k) ==> (#[trigger] hex_value(bytes@[k] as int))
                    is Some,
            id as int == uuid_prefix_value(bytes@, p as int),
            (id as int) < pow16(uuid_digits_before(p as int) as nat),
        decreases 36 - p,
    {
        if p == 8 || p == 13 || p == 18 || p == 23 {
            p += 1;
        } else {
            let byte = bytes[p];
            match hex_char_to_nibble(byte) {
                None => {
                    proof {
                        lemma_first_bad_uuid_digit(bytes@, 0, p as int);
                    }
                    return Err(ParseUuidStringError::InvalidHexChar { position: p, byte });
                },
                Some(v) => {
                    proof {
                        let k = uuid_digits_before(p as int);
                        assert(k <= 31);
                        lemma_pow16_mono((k + 1) as nat, 32);
                        reveal_with_fuel(pow16, 33);
                        let q = pow16(k as nat);
                        assert((id as int) * 16 + (v as int) < q * 16) by (nonlinear_arith)
                            requires
                                (id as int) < q,
                                v < 16,
                        ;
                    }
                    id = id * 16 + v as u128;
                    p += 1;
                },
            }
        }
    }
    proof {
        assert(uuid_digits_ok(bytes@));
    }
    Ok(id)
}

impl UUIDLike {
    /// Returns the raw 128-bit value.
    pub fn as_u128(&self) -> (r: u128)
        ensures
            r == self@,
    {
        self.0
    }

    /// Creates a new `UUIDLike` from any 128-bit value.
    pub fn new(id: u128) -> (r: Self)
        ensures
            r@ == id,
    {
        Self(id)
    }

    /// Converts to UUID hex string format, with uppercase hex digits if `uppercase`.
    pub fn to_uuid_string(&self, uppercase: bool) -> (r: String)
        ensures
            r@ == spec_uuid_string(self@, uppercase),
    {
        let case = if uppercase {
            Case::Upper
        } else {
            Case::Lower
        };
        u128_to_uuid_string(self.0, case)
    }

    /// Converts to UUID hex string format with the specified case.
    pub fn to_uuid_string_cased(&self, uppercase: bool) -> (r: String)
        ensures
            r@ == spec_uuid_string(self@, uppercase),
    {
        self.to_uuid_string(uppercase)
    }

    /// Parses a UUID hex string (`xxxxxxxx-xxxx-xxxx-xxxx-xxxxxxxxxxxx`, hex digits of
    /// either case) into a `UUIDLike`, without any TNID check.
    pub fn parse_uuid_string(uuid_string: &str) -> (r: Result<Self, ParseUuidStringError>)
        ensures
            match r {
                Ok(u) => spec_parse_uuid(uuid_string.spec_bytes()) == Ok::<
                    u128,
                    ParseUuidStringError,
                >(u@),
                Err(e) => spec_parse_uuid(uuid_string.spec_bytes()) == Err::<
                    u128,
                    ParseUuidStringError,
                >(e),
            },
    {
        match parse_uuid_bytes(uuid_string.as_bytes()) {
            Ok(id) => Ok(Self(id)),
            Err(e) => Err(e),
        }
    }
}

proof fn lemma_uuid_prefix_digits(b: Seq<u8>, id: u128, p: int)
    requires
        b.len() == 36,
        0 <= p <= 36,
        forall|i: int|
            0 <= i < 36 && !uuid_hyphen_pos(i) ==> #[trigger] hex_value(b[i] as int) == Some(
                spec_nibble(id, uuid_digits_before(i)) as u8,
            ),
    ensures
        uuid_prefix_value(b, p) == (id >> ((32 - uuid_digits_before(p)) * 4) as u128) as int,
    decreases p,
{
    if p == 0 {
        lemma_shr_ends(id);
    } else {
        lemma_uuid_prefix_digits(b, id, p - 1);
        if !uuid_hyphen_pos(p - 1) {
            let k = uuid_digits_before(p - 1);
            let s = ((31 - k) * 4) as u128;
            assert(uuid_digits_before(p) == k + 1);
            assert(((32 - k) * 4) as u128 == s + 4);
            assert(((id >> (s + 4)) * 16 + ((id >> s) & 15)) as int == (id >> s) as int) by {
                lemma_shift_nibble(id, s);
            }
            assert((id >> s) & 15 < 16) by { lemma_and_le(id >> s, 15); }
            assert(hex_value(b[p - 1] as int) == Some(spec_nibble(id, k) as u8));
            assert(spec_nibble(id, k) == (id >> s) & 15);
        }
    }
}

proof fn lemma_shift_nibble(x: u128, s: u128)
    requires
        s <= 124,
    ensures
        ((x >> (s + 4)) * 16 + ((x >> s) & 15)) as int == (x >> s) as int,
{
    lemma_split_digit(x, s);
}

/// The bytes of a UUID string of `id` spell its hyphens and nibbles.
pub proof fn lemma_uuid_string_bytes(id: u128, upper: bool, s: &str)
    requires
        s@ == spec_uuid_string(id, upper),
    ensures
        vstd::string::is_ascii(s),
        s.spec_bytes().len() == 36,
        first_missing_hyphen(s.spec_bytes()) is None,
        forall|i: int|
            0 <= i < 36 && !uuid_hyphen_pos(i) ==> #[trigger] hex_value(s.spec_bytes()[i] as int)
                == Some(spec_nibble(id, uuid_digits_before(i)) as u8),
{
    assert forall|i: int| 0 <= i < 36 implies spec_nibble(id, uuid_digits_before(i)) < 16 by {
        let sh = ((31 - uuid_digits_before(i)) * 4) as u128;
        assert((id >> sh) & 15 < 16) by { lemma_and_le(id >> sh, 15); }
    }
    assert forall|i: int| 0 <= i < s@.len() implies '\0' <= #[trigger] s@[i] <= '\u{7f}' by {}
    vstd::string::is_ascii_spec_bytes(s);
}

/// Law: parsing the UUID string of a value, in either case, gives the value back.
pub proof fn lemma_uuid_string_roundtrip(id: u128, upper: bool, s: &str)
    requires
        s@ == spec_uuid_string(id, upper),
    ensures
        spec_parse_uuid(s.spec_bytes()) == Ok::<u128, ParseUuidStringError>(id),
{
    lemma_uuid_string_bytes(id, upper, s);
    lemma_uuid_prefix_digits(s.spec_bytes(), id, 36);
    assert(uuid_digits_ok(s.spec_bytes()));
    lemma_shr_ends(id);
}

} // verus!
