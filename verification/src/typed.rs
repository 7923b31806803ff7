//! Type-safe TNIDs: `Tnid<Name>`, where the name comes from a [`TnidName`] type.
use vstd::prelude::*;

use crate::bits::{lemma_and_le};

use core::marker::PhantomData;

use crate::clock::{epoch_millis_from_nanos, now_utc, random_u128, random_u64, unix_timestamp_nanos};
use crate::data_encoding::{
    data_bytes_to_id_data, lemma_data_string_bytes, lemma_data_string_canonical, spec_data_bytes, expand_data_bits, id_data_to_string, lemma_compact_data_bytes_roundtrip,
    lemma_data_char_value, lemma_extract_data_bound, spec_compact_data_bytes, spec_data_string,
    spec_data_error_message, spec_extract_data_bits, spec_string_to_id_data, DataEncodingError, data_char, data_digit,
};
use crate::encryption::{
    decrypt_id_v1_to_v0, encrypt_id_v0_to_v1, spec_decrypt_id_v1_to_v0,
    spec_encrypt_id_v0_to_v1, EncryptionError, EncryptionKey,
};
use crate::filter::{
    find_first_match, has_match, occurs_at, next_timestamp, spec_next_timestamp, Blocklist, FilterError,
    MAX_ENCRYPTION_ITERATIONS, MAX_V0_ITERATIONS, MAX_V1_ITERATIONS,
};
use crate::layout::{
    has_name, is_exact_uuid_v8, is_tnid_bits, lemma_assemble, lemma_assemble_extract, lemma_name_bits_match,
    lemma_same_kept_bits, lemma_v0_id_valid, lemma_v1_id_valid, spec_assemble, NAME_BITS_MASK,
    UUID_BITS_MASK,
};
use crate::name_encoding::{
    extract_name_string, is_name_char, is_valid_name, lemma_name_mask_field, lemma_name_chars_ascii, lemma_name_roundtrip, name_bits_to_hex, name_mask,
    name_bits_well_formed, spec_extract_name, spec_name_hex, validate_name_bits,
    spec_name_error_message, NameBitsValidation, NameError, NameStr,
};
use crate::text::{push_char, push_decimal, push_str, spec_decimal};
use crate::tnid_variant::{spec_variant_of_id, TNIDVariant, TnidVariant};
use crate::utils::{spec_uuid_string, u128_to_uuid_string, Case, UUID_V8_MASK};
use crate::uuidlike::{
    spec_uuid_error_message,
    lemma_uuid_string_roundtrip, parse_uuid_bytes, spec_parse_uuid, ParseUuidStringError,
};
use crate::v0::spec_v0_id;
use crate::v1::spec_v1_id;
use crate::{v0, v1};
use time::OffsetDateTime;
use vstd::string::{StringExecFns, StringSliceAdditionalSpecFns};

verus! {

/// Error when parsing a TNID from a string or u128.
#[derive(Debug, Clone, PartialEq, Eq)]
#[non_exhaustive]
pub enum ParseTnidError {
    /// The TNID string has an invalid length (holds the byte length; 19-22 expected).
    InvalidLength(usize),
    /// The string does not contain a dot separator.
    MissingSeparator,
    /// The name portion is invalid.
    InvalidName(NameError),
    /// The name in the string or bits does not match the expected name.
    NameMismatch {
        /// The expected name from the type parameter
        expected: &'static str,
        /// The actual name found in the data
        found: String,
    },
    /// The data portion has an invalid encoding.
    InvalidDataEncoding(DataEncodingError),
    /// The UUID string format is invalid.
    InvalidUuidFormat(ParseUuidStringError),
    /// The UUID version/variant bits are not those of UUIDv8.
    InvalidUuidBits,
    /// The name encoding in the bits is invalid (empty or malformed).
    InvalidNameBits,
}

/// The description of a TNID parse error.
pub open spec fn spec_parse_error_message(e: ParseTnidError) -> Seq<char> {
    match e {
        ParseTnidError::InvalidLength(len) => "TNID string length "@ + spec_decimal(len as nat)
            + " is invalid; expected 19-22 characters"@,
        ParseTnidError::MissingSeparator => "TNID string missing dot separator; expected format: <name>.<data>"@,
        ParseTnidError::InvalidName(e) => "invalid TNID name: "@ + spec_name_error_message(e),
        ParseTnidError::NameMismatch { expected, found } => "name mismatch: expected '"@ + expected@
            + "', found '"@ + found@ + "'"@,
        ParseTnidError::InvalidDataEncoding(e) => "invalid TNID data encoding: "@
            + spec_data_error_message(e),
        ParseTnidError::InvalidUuidFormat(e) => "invalid UUID format: "@ + spec_uuid_error_message(e),
        ParseTnidError::InvalidUuidBits => "invalid UUID version/variant bits; expected UUIDv8"@,
        ParseTnidError::InvalidNameBits => "invalid name encoding in bits (empty or malformed)"@,
    }
}

impl ParseTnidError {
    /// A description of the error.
    pub fn message(&self) -> (r: String)
        ensures
            r@ == spec_parse_error_message(*self),
    {
        let mut s = String::new();
        match self {
            ParseTnidError::InvalidLength(len) => {
                push_str(&mut s, "TNID string length ");
                push_decimal(&mut s, *len as u128);
                push_str(&mut s, " is invalid; expected 19-22 characters");
            },
            ParseTnidError::MissingSeparator => push_str(
                &mut s,
                "TNID string missing dot separator; expected format: <name>.<data>",
            ),
            ParseTnidError::InvalidName(e) => {
                push_str(&mut s, "invalid TNID name: ");
                push_str(&mut s, e.message().as_str());
            },
            ParseTnidError::NameMismatch { expected, found } => {
                push_str(&mut s, "name mismatch: expected '");
                push_str(&mut s, expected);
                push_str(&mut s, "', found '");
                push_str(&mut s, found.as_str());
                push_str(&mut s, "'");
            },
            ParseTnidError::InvalidDataEncoding(e) => {
                push_str(&mut s, "invalid TNID data encoding: ");
                push_str(&mut s, e.message().as_str());
            },
            ParseTnidError::InvalidUuidFormat(e) => {
                push_str(&mut s, "invalid UUID format: ");
                push_str(&mut s, e.message().as_str());
            },
            ParseTnidError::InvalidUuidBits => push_str(
                &mut s,
                "invalid UUID version/variant bits; expected UUIDv8",
            ),
            ParseTnidError::InvalidNameBits => push_str(
                &mut s,
                "invalid name encoding in bits (empty or malformed)",
            ),
        }
        proof {
            assert(s@ =~= spec_parse_error_message(*self));
        }
        s
    }
}

/// Intended to be implemented on empty structs to create type checked TNID names.
pub trait TnidName {
    /// The name of this kind of id, as characters: the name that `id_name` returns.
    ///
    /// A verified implementation gives its name here. An implementation outside
    /// verified code cannot, and keeps the default (the empty sequence, which no valid
    /// name equals); for it `id_name` cannot meet its `ensures`, so the contracts that
    /// speak of this name tell nothing of it.
    closed spec fn spec_id_name() -> Seq<char> {
        Seq::empty()
    }

    /// The name of this kind of id.
    fn id_name() -> (r: NameStr<'static>)
        ensures
            r@ == Self::spec_id_name(),
    ;
}

/// Position of the first `.` byte from `from` on (the length if none).
pub open spec fn first_dot(b: Seq<u8>, from: int) -> int
    decreases b.len() - from,
{
    if from >= b.len() || from < 0 {
        b.len() as int
    } else if b[from] == 46 {
        from
    } else {
        first_dot(b, from + 1)
    }
}

/// The bytes of an ASCII character sequence.
pub open spec fn ascii_bytes(n: Seq<char>) -> Seq<u8> {
    Seq::new(n.len(), |i: int| n[i] as u8)
}

/// `from_u128` accepts `id` for the name `n`.
pub open spec fn from_u128_accepts(n: Seq<char>, id: u128) -> bool {
    is_tnid_bits(id) && has_name(id, n)
}

/// The error `from_u128` gives for a refused `id` and the name `n`.
pub open spec fn from_u128_error(n: Seq<char>, id: u128, e: ParseTnidError) -> bool {
    if id & UUID_BITS_MASK != UUID_V8_MASK {
        e == ParseTnidError::InvalidUuidBits
    } else if !name_bits_well_formed(id) {
        e == ParseTnidError::InvalidNameBits
    } else {
        e matches ParseTnidError::NameMismatch { expected, found } && expected@ == n && found@
            == spec_extract_name(id)
    }
}

/// What checking `id` against the name `n` gives.
pub open spec fn from_u128_outcome(n: Seq<char>, id: u128, r: Result<u128, ParseTnidError>) -> bool {
    match r {
        Ok(v) => from_u128_accepts(n, id) && v == id,
        Err(e) => !from_u128_accepts(n, id) && from_u128_error(n, id, e),
    }
}

/// What parsing the bytes `b` of a TNID string for the name `n` gives, in the order
/// the checks are made.
pub open spec fn parse_tnid_string_outcome(
    n: Seq<char>,
    b: Seq<u8>,
    r: Result<u128, ParseTnidError>,
) -> bool {
    let dot = first_dot(b, 0);
    if b.len() < 19 || b.len() > 22 {
        r == Err::<u128, ParseTnidError>(ParseTnidError::InvalidLength(b.len() as usize))
    } else if dot == b.len() {
        r == Err::<u128, ParseTnidError>(ParseTnidError::MissingSeparator)
    } else if b.subrange(0, dot) != ascii_bytes(n) {
        (r matches Err(ParseTnidError::NameMismatch { expected, found }) && expected@ == n
            && vstd::utf8::encode_utf8(found@) == b.subrange(0, dot))
    } else {
        match spec_string_to_id_data(b.subrange(dot + 1, b.len() as int)) {
            Err(e) => r == Err::<u128, ParseTnidError>(ParseTnidError::InvalidDataEncoding(e)),
            Ok(data) => r == Ok::<u128, ParseTnidError>(spec_assemble(n, data)),
        }
    }
}

/// What parsing the bytes `b` of a UUID string for the name `n` gives.
pub open spec fn parse_uuid_string_outcome(
    n: Seq<char>,
    b: Seq<u8>,
    r: Result<u128, ParseTnidError>,
) -> bool {
    match spec_parse_uuid(b) {
        Err(e) => r == Err::<u128, ParseTnidError>(ParseTnidError::InvalidUuidFormat(e)),
        Ok(id) => from_u128_outcome(n, id, r),
    }
}

/// The TNID string of an id: its name, a dot, and its data string.
pub open spec fn spec_tnid_string(id: u128) -> Seq<char> {
    spec_extract_name(id) + seq!['.'] + spec_data_string(id)
}

/// The first dot lies within the bytes (or is their length).
pub proof fn lemma_first_dot_bound(b: Seq<u8>, from: int)
    requires
        0 <= from,
    ensures
        0 <= first_dot(b, from) <= b.len(),
        first_dot(b, from) < b.len() ==> b[first_dot(b, from)] == 46,
    decreases b.len() - from,
{
    if from < b.len() && b[from] != 46 {
        lemma_first_dot_bound(b, from + 1);
    }
}

proof fn lemma_first_dot(b: Seq<u8>, from: int, i: int)
    requires
        0 <= from <= i <= b.len(),
        forall|k: int| from <= k < i ==> #[trigger] b[k] != 46,
        i == b.len() || b[i] == 46,
    ensures
        first_dot(b, from) == i,
    decreases i - from,
{
    if from < i {
        lemma_first_dot(b, from + 1, i);
    }
}

fn bytes_eq(a: &[u8], b: &[u8]) -> (r: bool)
    ensures
        r == (a@ == b@),
{
    if a.len() != b.len() {
        return false;
    }
    let mut i: usize = 0;
    while i < a.len()
        invariant
            a@.len() == b@.len(),
            i <= a@.len(),
            forall|k: int| 0 <= k < i ==> a@[k] == b@[k],
        decreases a@.len() - i,
    {
        if a[i] != b[i] {
            return false;
        }
        i += 1;
    }
    proof {
        assert(a@ =~= b@);
    }
    true
}

/// Position of the first `.` byte, or the length if there is none.
pub(crate) fn find_dot(bytes: &[u8]) -> (r: usize)
    ensures
        r == first_dot(bytes@, 0),
        r <= bytes@.len(),
        r < bytes@.len() ==> bytes@[r as int] == 46,
{
    let mut dot: usize = 0;
    while dot < bytes.len() && bytes[dot] != 46
        invariant
            dot <= bytes@.len(),
            forall|k: int| 0 <= k < dot ==> #[trigger] bytes@[k] != 46,
        decreases bytes@.len() - dot,
    {
        dot += 1;
    }
    proof {
        lemma_first_dot(bytes@, 0, dot as int);
    }
    dot
}

/// The name part of `s` before byte `dot`, where `s` holds a `.` at `dot`.
pub(crate) fn name_part(s: &str, dot: usize) -> (r: String)
    requires
        dot < s.spec_bytes().len(),
        s.spec_bytes()[dot as int] == 46,
    ensures
        vstd::utf8::encode_utf8(r@) == s.spec_bytes().subrange(0, dot as int),
{
    proof {
        vstd::utf8::encode_utf8_valid_utf8(s@);
        vstd::utf8::is_char_boundary_iff_not_is_continuation_byte(s.spec_bytes(), dot as int);
    }
    let (name, _rest) = s.split_at(dot);
    name.to_owned()
}

/// Checks that `id` is a TNID with the name `expected`: the UUID version nibble is 8 and the
/// variant bits are `0b10`, the name bits are well formed, and they hold `expected`.
pub fn check_u128_for_name(expected: NameStr<'static>, id: u128) -> (r: Result<
    u128,
    ParseTnidError,
>)
    ensures
        from_u128_outcome(expected@, id, r),
{
    if (id & UUID_BITS_MASK) != UUID_V8_MASK {
        return Err(ParseTnidError::InvalidUuidBits);
    }
    match validate_name_bits(id) {
        NameBitsValidation::Invalid => {
            return Err(ParseTnidError::InvalidNameBits);
        },
        NameBitsValidation::Valid => {},
    }
    let expected_str = expected.as_str();
    let actual_name_bits = id & NAME_BITS_MASK;
    let expected_name_bits = name_mask(expected);
    proof {
        lemma_name_bits_match(id, expected@);
    }
    if actual_name_bits != expected_name_bits {
        let found = match extract_name_string(id) {
            Some(found) => found,
            None => {
                proof {
                    assert(false);
                }
                String::new()
            },
        };
        return Err(ParseTnidError::NameMismatch { expected: expected_str, found });
    }
    Ok(id)
}

/// Parses a TNID string (`<name>.<data>`) whose name must be `expected`.
pub fn parse_tnid_string_for_name(expected: NameStr<'static>, tnid_string: &str) -> (r: Result<
    u128,
    ParseTnidError,
>)
    ensures
        parse_tnid_string_outcome(expected@, tnid_string.spec_bytes(), r),
        r matches Ok(id) ==> from_u128_accepts(expected@, id) && is_exact_uuid_v8(id),
{
    let bytes = tnid_string.as_bytes();
    let len = bytes.len();
    if len < 19 || len > 22 {
        return Err(ParseTnidError::InvalidLength(len));
    }
    let dot = find_dot(bytes);
    if dot == len {
        return Err(ParseTnidError::MissingSeparator);
    }
    let expected_str = expected.as_str();
    let expected_bytes = expected_str.as_bytes();
    proof {
        lemma_name_chars_ascii(expected_str);
        assert(expected_bytes@ =~= ascii_bytes(expected@));
    }
    if !bytes_eq(&bytes[0..dot], expected_bytes) {
        let found = name_part(tnid_string, dot);
        return Err(ParseTnidError::NameMismatch { expected: expected_str, found });
    }
    let compact_data = match data_bytes_to_id_data(&bytes[dot + 1..len]) {
        Ok(c) => c,
        Err(e) => {
            return Err(ParseTnidError::InvalidDataEncoding(e));
        },
    };
    let data_bits = expand_data_bits(compact_data);
    let name_bits = name_mask(expected);
    let id = name_bits | UUID_V8_MASK | data_bits;
    proof {
        lemma_assemble(expected@, compact_data);
    }
    check_u128_for_name(expected, id)
}

/// Parses a UUID hex string and checks that it is a TNID with the name `expected`.
pub fn parse_uuid_string_for_name(expected: NameStr<'static>, uuid_string: &str) -> (r: Result<
    u128,
    ParseTnidError,
>)
    ensures
        parse_uuid_string_outcome(expected@, uuid_string.spec_bytes(), r),
{
    let id = match parse_uuid_bytes(uuid_string.as_bytes()) {
        Ok(id) => id,
        Err(e) => {
            return Err(ParseTnidError::InvalidUuidFormat(e));
        },
    };
    check_u128_for_name(expected, id)
}

/// The TNID string of a TNID: its name (read from its bits), a dot, and its data string.
pub(crate) fn tnid_string_of(id: u128) -> (r: String)
    requires
        name_bits_well_formed(id),
    ensures
        r@ == spec_tnid_string(id),
{
    let mut s = match extract_name_string(id) {
        Some(name) => name,
        None => {
            proof {
                assert(false);
            }
            String::new()
        },
    };
    push_char(&mut s, '.');
    let data = id_data_to_string(id);
    s.append(data.as_str());
    s
}

/// A type-safe TNID parameterized by name.
///
/// `Tnid<User>` and `Tnid<Post>` are distinct types. Every value is a TNID: its UUID
/// version and variant bits are those of UUIDv8 and its name field holds the name of `Name`.
#[derive(Debug, PartialEq, Eq, Hash, PartialOrd, Ord)]
pub struct Tnid<Name: TnidName> {
    id_name: PhantomData<Name>,
    id: u128,
}

impl<Name: TnidName> Clone for Tnid<Name> {
    fn clone(&self) -> (r: Self)
        ensures
            r == *self,
    {
        proof {
            use_type_invariant(self);
        }
        Tnid { id_name: PhantomData, id: self.id }
    }
}

impl<Name: TnidName> Copy for Tnid<Name> {

}

impl<Name: TnidName> Tnid<Name> {
    #[verifier::type_invariant]
    pub(crate) open spec fn wf(self) -> bool {
        &&& is_tnid_bits(self@)
        &&& is_valid_name(Name::spec_id_name())
        &&& has_name(self@, Name::spec_id_name())
    }
}

impl<Name: TnidName> View for Tnid<Name> {
    type V = u128;

    closed spec fn view(&self) -> u128 {
        self.id
    }
}

/// `(start, len)` is an occurrence of one of the words `pats` in `t`.
pub open spec fn is_word_at(pats: Seq<Seq<u8>>, t: Seq<u8>, start: int, len: int) -> bool {
    exists|k: int| 0 <= k < pats.len() && pats[k].len() == len && #[trigger] occurs_at(pats[k], t, start)
}

/// The timestamp that the next try of filtered v0 generation takes after a try whose
/// data string held a word: a bump past some occurrence of a word in that string.
pub open spec fn is_next_try(pats: Seq<Seq<u8>>, id: u128, timestamp: u64, next: u64) -> bool {
    exists|start: usize, len: usize|
        is_word_at(pats, spec_data_bytes(id), start as int, len as int) && next
            == #[trigger] spec_next_timestamp(timestamp, start, len)
}

/// The bits of a result that holds a `Tnid`.
pub open spec fn tnid_result_bits<Name: TnidName, E>(r: Result<Tnid<Name>, E>) -> Result<u128, E> {
    match r {
        Ok(t) => Ok(t@),
        Err(e) => Err(e),
    }
}

impl<Name: TnidName> Tnid<Name> {
    fn from_checked_bits(id: u128) -> (r: Self)
        requires
            is_tnid_bits(id),
            is_valid_name(Name::spec_id_name()),
            has_name(id, Name::spec_id_name()),
        ensures
            r@ == id,
    {
        Tnid { id_name: PhantomData, id }
    }

    /// Returns the name associated with this TNID type.
    pub fn name(&self) -> (r: &'static str)
        ensures
            r@ == Name::spec_id_name(),
            is_valid_name(r@),
    {
        Name::id_name().as_str()
    }

    /// Returns the hex representation of the name field (20 bits as 5 hex characters).
    pub fn name_hex(&self) -> (r: String)
        ensures
            r@ == spec_name_hex(self@),
    {
        name_bits_to_hex(self.id)
    }

    /// Returns the raw 128-bit UUIDv8-compatible representation of this TNID.
    pub fn as_u128(&self) -> (r: u128)
        ensures
            r == self@,
            is_tnid_bits(r),
            is_valid_name(Name::spec_id_name()),
            has_name(r, Name::spec_id_name()),
    {
        proof {
            use_type_invariant(self);
        }
        self.id
    }

    /// Generates a new time-ordered TNID (alias for [`Self::new_v0`]).
    pub fn new_time_ordered() -> (r: Self)
        ensures
            exists|m: u64, rb: u64| r@ == #[trigger] spec_v0_id(Name::spec_id_name(), m, rb),
    {
        Self::new_v0()
    }

    /// Generates a new v0 TNID from the current time and random bits.
    pub fn new_v0() -> (r: Self)
        ensures
            exists|m: u64, rb: u64| r@ == #[trigger] spec_v0_id(Name::spec_id_name(), m, rb),
    {
        Self::new_v0_with_time(now_utc())
    }

    /// Generates a new TNID with maximum randomness (alias for [`Self::new_v1`]).
    pub fn new_high_entropy() -> (r: Self)
        ensures
            exists|rb: u128| r@ == #[trigger] spec_v1_id(Name::spec_id_name(), rb),
    {
        Self::new_v1()
    }

    /// Generates a new v1 TNID from random bits.
    ///
    /// The contract does not say which bits: nothing is claimed of the random source.
    /// [`Self::new_v1_with_random`] states the id for given bits.
    pub fn new_v1() -> (r: Self)
        ensures
            exists|rb: u128| r@ == #[trigger] spec_v1_id(Name::spec_id_name(), rb),
    {
        Self::new_v1_with_random(random_u128())
    }

    /// Generates a new v1 TNID from explicit random bits (100 of them are used).
    pub fn new_v1_with_random(random_bits: u128) -> (r: Self)
        ensures
            r@ == spec_v1_id(Name::spec_id_name(), random_bits),
    {
        let name = Name::id_name();
        proof {
            use_type_invariant(&name);
            lemma_v1_id_valid(name@, random_bits);
        }
        let id = v1::make_from_parts(name, random_bits);
        Self::from_checked_bits(id)
    }

    /// Generates a new v0 TNID for the given time, with random bits.
    ///
    /// The timestamp is the time in whole milliseconds since the Unix epoch, wrapped to
    /// 64 bits; only its low 43 bits are stored. The contract does not say which
    /// timestamp: `time` is opaque here and its nanoseconds come from an outside call
    /// of which nothing is claimed. [`Self::new_v0_with_parts`] states the id for a
    /// given timestamp, and `epoch_millis_from_nanos` the timestamp of given nanoseconds.
    pub fn new_v0_with_time(time: OffsetDateTime) -> (r: Self)
        ensures
            exists|m: u64, rb: u64| r@ == #[trigger] spec_v0_id(Name::spec_id_name(), m, rb),
    {
        let epoch_millis = epoch_millis_from_nanos(unix_timestamp_nanos(&time));
        let random_bits = random_u64();
        Self::new_v0_with_parts(epoch_millis, random_bits)
    }

    /// Generates a new v0 TNID from explicit components: milliseconds since the Unix
    /// epoch (43 bits are used) and random bits (57 bits are used).
    pub fn new_v0_with_parts(epoch_millis: u64, random: u64) -> (r: Self)
        ensures
            r@ == spec_v0_id(Name::spec_id_name(), epoch_millis, random),
    {
        let name = Name::id_name();
        proof {
            use_type_invariant(&name);
            lemma_v0_id_valid(name@, epoch_millis, random);
        }
        let id = v0::make_from_parts(name, epoch_millis, random);
        Self::from_checked_bits(id)
    }

    /// Returns the TNID string representation: `<name>.<encoded-data>`.
    pub fn to_tnid_string(&self) -> (r: String)
        ensures
            r@ == spec_tnid_string(self@),
            r@ == Name::spec_id_name() + seq!['.'] + spec_data_string(self@),
    {
        proof {
            use_type_invariant(self);
            lemma_name_roundtrip(Name::spec_id_name(), self.id);
        }
        tnid_string_of(self.id)
    }

    /// Returns just the data portion of the TNID string (17 characters).
    pub fn data_string(&self) -> (r: String)
        ensures
            r@ == spec_data_string(self@),
    {
        id_data_to_string(self.id)
    }

    /// Returns the TNID variant.
    pub fn variant(&self) -> (r: TnidVariant)
        ensures
            r == spec_variant_of_id(self@),
    {
        TNIDVariant::from_id(self.id)
    }

    /// Converts the TNID to UUID hex string format in the given case.
    pub fn to_uuid_string(&self, case: Case) -> (r: String)
        ensures
            r@ == spec_uuid_string(self@, case == Case::Upper),
    {
        u128_to_uuid_string(self.id, case)
    }

    /// Parses a TNID from UUID hex string format (either case).
    pub fn parse_uuid_string(uuid_string: &str) -> (r: Result<Self, ParseTnidError>)
        ensures
            parse_uuid_string_outcome(
                Name::spec_id_name(),
                uuid_string.spec_bytes(),
                tnid_result_bits(r),
            ),
    {
        let name = Name::id_name();
        proof {
            use_type_invariant(&name);
        }
        match parse_uuid_string_for_name(name, uuid_string) {
            Ok(id) => Ok(Self::from_checked_bits(id)),
            Err(e) => Err(e),
        }
    }

    /// Parses a TNID from its string representation `<name>.<encoded-data>`.
    pub fn parse_tnid_string(tnid_string: &str) -> (r: Result<Self, ParseTnidError>)
        ensures
            parse_tnid_string_outcome(
                Name::spec_id_name(),
                tnid_string.spec_bytes(),
                tnid_result_bits(r),
            ),
    {
        let name = Name::id_name();
        proof {
            use_type_invariant(&name);
        }
        match parse_tnid_string_for_name(name, tnid_string) {
            Ok(id) => Ok(Self::from_checked_bits(id)),
            Err(e) => Err(e),
        }
    }

    /// Parses either text form of a TNID: a string that holds a `.` as a TNID string,
    /// any other as a UUID hex string.
    pub fn parse_tnid_or_uuid_str(s: &str) -> (r: Result<Self, ParseTnidError>)
        ensures
            if first_dot(s.spec_bytes(), 0) < s.spec_bytes().len() {
                parse_tnid_string_outcome(Name::spec_id_name(), s.spec_bytes(), tnid_result_bits(r))
            } else {
                parse_uuid_string_outcome(Name::spec_id_name(), s.spec_bytes(), tnid_result_bits(r))
            },
    {
        let name = Name::id_name();
        proof {
            use_type_invariant(&name);
        }
        let bytes = s.as_bytes();
        let found = if find_dot(bytes) < bytes.len() {
            parse_tnid_string_for_name(name, s)
        } else {
            parse_uuid_string_for_name(name, s)
        };
        match found {
            Ok(id) => Ok(Self::from_checked_bits(id)),
            Err(e) => Err(e),
        }
    }

    /// Creates a TNID from a raw 128-bit value, checking the UUIDv8 bits and the name.
    pub fn from_u128(id: u128) -> (r: Result<Self, ParseTnidError>)
        ensures
            from_u128_outcome(Name::spec_id_name(), id, tnid_result_bits(r)),
    {
        let name = Name::id_name();
        proof {
            use_type_invariant(&name);
        }
        match check_u128_for_name(name, id) {
            Ok(id) => Ok(Self::from_checked_bits(id)),
            Err(e) => Err(e),
        }
    }

    /// Encrypts a V0 TNID to a V1 TNID, hiding timestamp information.
    ///
    /// A V1 TNID comes back unchanged; V2/V3 are refused. Decrypting the encryption of
    /// a V0 TNID with the same key gives it back.
    pub fn encrypt_v0_to_v1(&self, key: &EncryptionKey) -> (r: Result<Self, EncryptionError>)
        ensures
            tnid_result_bits(r) == spec_encrypt_id_v0_to_v1(self@, key@),
            spec_variant_of_id(self@) == TNIDVariant::V0 ==> (r matches Ok(e)
                && spec_variant_of_id(e@) == TNIDVariant::V1 && spec_decrypt_id_v1_to_v0(
                e@,
                key@,
            ) == Ok::<u128, EncryptionError>(self@)),
    {
        proof {
            use_type_invariant(self);
        }
        match encrypt_id_v0_to_v1(self.id, key) {
            Ok(id) => {
                proof {
                    if spec_variant_of_id(self.id) == TNIDVariant::V0 {
                        lemma_same_kept_bits(id, self.id, Name::spec_id_name());
                    }
                }
                Ok(Self::from_checked_bits(id))
            },
            Err(e) => Err(e),
        }
    }

    /// Decrypts a V1 TNID back to a V0 TNID, recovering timestamp information.
    ///
    /// A V0 TNID comes back unchanged; V2/V3 are refused.
    pub fn decrypt_v1_to_v0(&self, key: &EncryptionKey) -> (r: Result<Self, EncryptionError>)
        ensures
            tnid_result_bits(r) == spec_decrypt_id_v1_to_v0(self@, key@),
            spec_variant_of_id(self@) == TNIDVariant::V1 ==> (r matches Ok(d)
                && spec_variant_of_id(d@) == TNIDVariant::V0 && spec_encrypt_id_v0_to_v1(
                d@,
                key@,
            ) == Ok::<u128, EncryptionError>(self@)),
    {
        proof {
            use_type_invariant(self);
        }
        match decrypt_id_v1_to_v0(self.id, key) {
            Ok(id) => {
                proof {
                    if spec_variant_of_id(self.id) == TNIDVariant::V1 {
                        lemma_same_kept_bits(id, self.id, Name::spec_id_name());
                    }
                }
                Ok(Self::from_checked_bits(id))
            },
            Err(e) => Err(e),
        }
    }

    /// One try of filtered v0 generation: the v0 id of `timestamp` and `random` when
    /// its data string holds no word of the blocklist, else the timestamp to try next.
    pub fn try_v0_filtered(blocklist: &Blocklist, timestamp: u64, random: u64) -> (r: Result<
        Self,
        u64,
    >)
        ensures
            match r {
                Ok(t) => t@ == spec_v0_id(Name::spec_id_name(), timestamp, random) && !has_match(
                    blocklist.patterns(),
                    spec_data_bytes(t@),
                ),
                Err(next) => has_match(
                    blocklist.patterns(),
                    spec_data_bytes(spec_v0_id(Name::spec_id_name(), timestamp, random)),
                ) && is_next_try(
                    blocklist.patterns(),
                    spec_v0_id(Name::spec_id_name(), timestamp, random),
                    timestamp,
                    next,
                ),
            },
    {
        proof {
            use_type_invariant(blocklist);
        }
        let id = Self::new_v0_with_parts(timestamp, random);
        let data = id.data_string();
        let text = data.as_str();
        proof {
            lemma_data_string_bytes(id@, text);
        }
        match find_first_match(blocklist, text) {
            None => Ok(id),
            Some((start, len)) => {
                proof {
                    lemma_match_in_data(blocklist.patterns(), id@, start, len);
                }
                let next = next_timestamp(timestamp, start, len);
                proof {
                    assert(is_word_at(
                        blocklist.patterns(),
                        spec_data_bytes(id@),
                        start as int,
                        len as int,
                    ));
                }
                Err(next)
            },
        }
    }

    /// One try of filtered v1 generation: the v1 id of `random_bits` when its data
    /// string holds no word of the blocklist.
    pub fn try_v1_filtered(blocklist: &Blocklist, random_bits: u128) -> (r: Option<Self>)
        ensures
            r is Some <==> !has_match(
                blocklist.patterns(),
                spec_data_bytes(spec_v1_id(Name::spec_id_name(), random_bits)),
            ),
            r matches Some(t) ==> t@ == spec_v1_id(Name::spec_id_name(), random_bits),
    {
        let id = Self::new_v1_with_random(random_bits);
        let data = id.data_string();
        let text = data.as_str();
        proof {
            lemma_data_string_bytes(id@, text);
        }
        if blocklist.contains_match(text) {
            None
        } else {
            Some(id)
        }
    }

    /// One try of filtered v0 generation for encryption: the v0 id of `timestamp` and
    /// `random` when neither its data string nor that of its encryption under `key`
    /// holds a word of the blocklist. Otherwise the timestamp to try next: past a word
    /// in the v0 data string, or the same timestamp when only the encryption held one.
    pub fn try_v0_filtered_for_encryption(
        key: &EncryptionKey,
        blocklist: &Blocklist,
        timestamp: u64,
        random: u64,
    ) -> (r: Result<Self, u64>)
        ensures
            ({
                let id = spec_v0_id(Name::spec_id_name(), timestamp, random);
                let pats = blocklist.patterns();
                match r {
                    Ok(t) => {
                        &&& t@ == id
                        &&& !has_match(pats, spec_data_bytes(id))
                        &&& spec_encrypt_id_v0_to_v1(id, key@) matches Ok(e) && !has_match(
                            pats,
                            spec_data_bytes(e),
                        )
                    },
                    Err(next) => if has_match(pats, spec_data_bytes(id)) {
                        is_next_try(pats, id, timestamp, next)
                    } else {
                        &&& next == timestamp
                        &&& spec_encrypt_id_v0_to_v1(id, key@) matches Ok(e) && has_match(
                            pats,
                            spec_data_bytes(e),
                        )
                    },
                }
            }),
    {
        match Self::try_v0_filtered(blocklist, timestamp, random) {
            Err(next) => Err(next),
            Ok(v0) => {
                proof {
                    use_type_invariant(&v0);
                    lemma_v0_id_valid(Name::spec_id_name(), timestamp, random);
                }
                let v1 = match v0.encrypt_v0_to_v1(key) {
                    Ok(v1) => v1,
                    Err(_) => {
                        proof {
                            assert(false);
                        }
                        return Err(timestamp);
                    },
                };
                let v1_data = v1.data_string();
                let v1_text = v1_data.as_str();
                proof {
                    lemma_data_string_bytes(v1@, v1_text);
                }
                if blocklist.contains_match(v1_text) {
                    Err(timestamp)
                } else {
                    Ok(v0)
                }
            },
        }
    }

    /// Generates a new v0 TNID whose data string holds no word of the blocklist.
    ///
    /// Tries start from the later of the current time and the last timestamp that gave
    /// a clean id. Each try takes new random bits; a match lying wholly in the timestamp
    /// characters (0-6) bumps the timestamp just enough to change its last character.
    /// Gives up after [`MAX_V0_ITERATIONS`] tries. The contract does not say which
    /// timestamps are tried: the start rests on the clock and on a value shared between
    /// threads, of which nothing is claimed; [`Self::try_v0_filtered`] states each try.
    pub fn new_v0_filtered(blocklist: &Blocklist) -> (r: Result<Self, FilterError>)
        ensures
            match r {
                Ok(t) => !has_match(blocklist.patterns(), spec_data_bytes(t@)) && exists|
                    m: u64,
                    rb: u64,
                | t@ == #[trigger] spec_v0_id(Name::spec_id_name(), m, rb),
                Err(e) => e == FilterError::MaxIterationsExceeded { iterations: MAX_V0_ITERATIONS },
            },
            blocklist.patterns().len() == 0 ==> r is Ok,
    {
        proof {
            use_type_invariant(blocklist);
        }
        let mut timestamp = blocklist.get_starting_timestamp();
        let mut iteration: u32 = 0;
        while iteration < MAX_V0_ITERATIONS
            invariant
                iteration <= MAX_V0_ITERATIONS,
                blocklist.patterns().len() == 0 ==> iteration == 0,
            decreases MAX_V0_ITERATIONS - iteration,
        {
            let random = random_u64();
            match Self::try_v0_filtered(blocklist, timestamp, random) {
                Ok(id) => {
                    blocklist.record_safe_timestamp(timestamp);
                    return Ok(id);
                },
                Err(next) => {
                    timestamp = next;
                },
            }
            iteration += 1;
        }
        Err(FilterError::MaxIterationsExceeded { iterations: MAX_V0_ITERATIONS })
    }

    /// Generates a new v1 TNID whose data string holds no word of the blocklist, trying
    /// new random bits up to [`MAX_V1_ITERATIONS`] times.
    pub fn new_v1_filtered(blocklist: &Blocklist) -> (r: Result<Self, FilterError>)
        ensures
            match r {
                Ok(t) => !has_match(blocklist.patterns(), spec_data_bytes(t@)) && exists|rb: u128|
                    t@ == #[trigger] spec_v1_id(Name::spec_id_name(), rb),
                Err(e) => e == FilterError::MaxIterationsExceeded { iterations: MAX_V1_ITERATIONS },
            },
            blocklist.patterns().len() == 0 ==> r is Ok,
    {
        let mut iteration: u32 = 0;
        while iteration < MAX_V1_ITERATIONS
            invariant
                iteration <= MAX_V1_ITERATIONS,
                blocklist.patterns().len() == 0 ==> iteration == 0,
            decreases MAX_V1_ITERATIONS - iteration,
        {
            let random_bits = random_u128();
            match Self::try_v1_filtered(blocklist, random_bits) {
                Some(id) => {
                    return Ok(id);
                },
                None => {},
            }
            iteration += 1;
        }
        Err(FilterError::MaxIterationsExceeded { iterations: MAX_V1_ITERATIONS })
    }

    /// Generates a v0 TNID such that neither its data string nor that of its encryption
    /// under `key` holds a word of the blocklist.
    ///
    /// Tries as [`Self::new_v0_filtered`] does; when the v0 id is clean but its
    /// encryption is not, the next try takes new random bits. Gives up after
    /// [`MAX_ENCRYPTION_ITERATIONS`] tries. As for [`Self::new_v0_filtered`], the
    /// timestamps tried are not stated; [`Self::try_v0_filtered_for_encryption`] states
    /// each try.
    pub fn new_v0_filtered_for_encryption(key: &EncryptionKey, blocklist: &Blocklist) -> (r: Result<
        Self,
        FilterError,
    >)
        ensures
            match r {
                Ok(t) => {
                    &&& !has_match(blocklist.patterns(), spec_data_bytes(t@))
                    &&& exists|m: u64, rb: u64|
                        t@ == #[trigger] spec_v0_id(Name::spec_id_name(), m, rb)
                    &&& spec_encrypt_id_v0_to_v1(t@, key@) matches Ok(e) && !has_match(
                        blocklist.patterns(),
                        spec_data_bytes(e),
                    )
                },
                Err(e) => e == FilterError::MaxIterationsExceeded {
                    iterations: MAX_ENCRYPTION_ITERATIONS,
                },
            },
            blocklist.patterns().len() == 0 ==> r is Ok,
    {
        proof {
            use_type_invariant(blocklist);
        }
        let mut timestamp = blocklist.get_starting_timestamp();
        let mut iteration: u32 = 0;
        while iteration < MAX_ENCRYPTION_ITERATIONS
            invariant
                iteration <= MAX_ENCRYPTION_ITERATIONS,
                blocklist.patterns().len() == 0 ==> iteration == 0,
            decreases MAX_ENCRYPTION_ITERATIONS - iteration,
        {
            let random = random_u64();
            match Self::try_v0_filtered_for_encryption(key, blocklist, timestamp, random) {
                Ok(id) => {
                    blocklist.record_safe_timestamp(timestamp);
                    return Ok(id);
                },
                Err(next) => {
                    timestamp = next;
                },
            }
            iteration += 1;
        }
        Err(FilterError::MaxIterationsExceeded { iterations: MAX_ENCRYPTION_ITERATIONS })
    }
}

/// A match reported in the data string of an id has at least one character and ends
/// within the 17 characters.
proof fn lemma_match_in_data(pats: Seq<Seq<u8>>, id: u128, start: usize, len: usize)
    requires
        forall|k: int| 0 <= k < pats.len() ==> #[trigger] pats[k].len() > 0,
        exists|k: int|
            0 <= k < pats.len() && pats[k].len() == len && #[trigger] occurs_at(
                pats[k],
                spec_data_bytes(id),
                start as int,
            ),
    ensures
        1 <= len,
        start + len <= 17,
{
    let k = choose|k: int|
        0 <= k < pats.len() && pats[k].len() == len && #[trigger] occurs_at(
            pats[k],
            spec_data_bytes(id),
            start as int,
        );
    assert(pats[k].len() > 0);
}

impl<Name: TnidName> core::str::FromStr for Tnid<Name> {
    type Err = ParseTnidError;

    /// Parses a TNID from either TNID string format (19-22 bytes holding a `.`) or UUID
    /// hex format (36 bytes); any other length is refused.
    fn from_str(s: &str) -> (r: Result<Self, ParseTnidError>)
        ensures
            ({
                let b = s.spec_bytes();
                if 19 <= b.len() <= 22 && first_dot(b, 0) < b.len() {
                    parse_tnid_string_outcome(Name::spec_id_name(), b, tnid_result_bits(r))
                } else if b.len() == 36 {
                    parse_uuid_string_outcome(Name::spec_id_name(), b, tnid_result_bits(r))
                } else {
                    r is Err && r->Err_0 == ParseTnidError::InvalidLength(b.len() as usize)
                }
            }),
    {
        let bytes = s.as_bytes();
        let len = bytes.len();
        if 19 <= len && len <= 22 && find_dot(bytes) < len {
            Self::parse_tnid_string(s)
        } else if len == 36 {
            Self::parse_uuid_string(s)
        } else {
            Err(ParseTnidError::InvalidLength(len))
        }
    }
}

/// Law: ids of two kinds whose names differ never hold the same bits, so a value of
/// one kind never stands for an id of the other.
pub proof fn lemma_kinds_distinct(a: u128, na: Seq<char>, b: u128, nb: Seq<char>)
    requires
        is_valid_name(na),
        is_valid_name(nb),
        has_name(a, na),
        has_name(b, nb),
        na != nb,
    ensures
        a != b,
{
    if a == b {
        lemma_name_roundtrip(na, a);
        lemma_name_roundtrip(nb, b);
    }
}

/// Law: a TNID passes the check for its own name.
pub proof fn lemma_from_u128_roundtrip(id: u128, n: Seq<char>)
    requires
        is_tnid_bits(id),
        has_name(id, n),
    ensures
        from_u128_outcome(n, id, Ok::<u128, ParseTnidError>(id)),
{
}

/// Law: parsing the TNID string of a TNID for its own name gives the TNID back.
pub proof fn lemma_tnid_string_roundtrip(id: u128, n: Seq<char>, s: &str)
    requires
        is_valid_name(n),
        is_tnid_bits(id),
        has_name(id, n),
        s@ == spec_tnid_string(id),
    ensures
        parse_tnid_string_outcome(n, s.spec_bytes(), Ok::<u128, ParseTnidError>(id)),
{
    lemma_name_roundtrip(n, id);
    let x = spec_extract_data_bits(id);
    lemma_extract_data_bound(id);
    lemma_compact_data_bytes_roundtrip(x);
    let db = spec_compact_data_bytes(x);
    let len = n.len() as int + 18;
    assert(s@.len() == len);
    assert forall|i: int| 0 <= i < 17 implies data_digit(x, i) < 64 by {
        let sh = ((16 - i) * 6) as u128;
        assert((x >> sh) & 63 < 64) by { lemma_and_le(x >> sh, 63); }
    }
    assert forall|i: int| 0 <= i < s@.len() implies '\0' <= #[trigger] s@[i] <= '\u{7f}' by {
        if i < n.len() {
            assert(is_name_char(n[i]));
        } else if i > n.len() {
            lemma_data_char_value(data_digit(x, i - n.len() - 1) as int);
        }
    }
    vstd::string::is_ascii_spec_bytes(s);
    let b = s.spec_bytes();
    assert forall|k: int| 0 <= k < n.len() implies #[trigger] b[k] != 46 by {
        assert(is_name_char(n[k]));
    }
    lemma_first_dot(b, 0, n.len() as int);
    assert(b.subrange(0, n.len() as int) =~= ascii_bytes(n));
    assert forall|j: int| 0 <= j < 17 implies #[trigger] b.subrange(n.len() as int + 1, len)[j]
        == db[j] by {
        lemma_data_char_value(data_digit(x, j) as int);
    }
    assert(b.subrange(n.len() as int + 1, len) =~= db);
    lemma_assemble_extract(id, n);
}

/// Law: parsing the UUID string of a TNID, in either case, for its own name gives
/// the TNID back.
pub proof fn lemma_tnid_uuid_string_roundtrip(id: u128, n: Seq<char>, upper: bool, s: &str)
    requires
        is_tnid_bits(id),
        has_name(id, n),
        s@ == spec_uuid_string(id, upper),
    ensures
        parse_uuid_string_outcome(n, s.spec_bytes(), Ok::<u128, ParseTnidError>(id)),
{
    lemma_uuid_string_roundtrip(id, upper, s);
}

/// Law: a TNID has exactly one TNID string. Bytes that parse to a TNID for a name
/// spell its name, a dot and its data string.
pub proof fn lemma_tnid_string_canonical(n: Seq<char>, b: Seq<u8>, id: u128)
    requires
        is_valid_name(n),
        parse_tnid_string_outcome(n, b, Ok::<u128, ParseTnidError>(id)),
    ensures
        b == ascii_bytes(spec_extract_name(id)) + seq![46u8] + spec_data_bytes(id),
{
    let dot = first_dot(b, 0);
    lemma_first_dot_bound(b, 0);
    let len = b.len() as int;
    let tail = b.subrange(dot + 1, len);
    let data = spec_string_to_id_data(tail)->Ok_0;
    lemma_data_string_canonical(tail);
    lemma_assemble(n, data);
    assert(data & 0x0000003f_ffff_ffff_ffff_ffffffffffffu128 == data) by (bit_vector)
        requires
            data <= 0x0000003f_ffff_ffff_ffff_ffffffffffffu128,
    ;
    lemma_name_mask_field(n);
    lemma_name_roundtrip(n, id);
    assert(b =~= b.subrange(0, dot) + seq![46u8] + tail);
}

} // verus!
