//! TNIDs whose name is known only at run time.
//!
//! A [`DynamicTnid`] is any valid TNID: its UUID version and variant bits are exactly
//! those of UUIDv8 and its name bits are well formed, whatever the name. Its name is
//! read from its bits.
use vstd::prelude::*;

use crate::bits::{lemma_and_le, lemma_shr_ends, lemma_split_digit};

use time::OffsetDateTime;

use crate::clock::{epoch_millis_from_nanos, random_u128, random_u64, unix_timestamp_nanos, now_utc};
use crate::data_encoding::{data_bytes_to_id_data, expand_data_bits, spec_string_to_id_data};
use crate::encryption::{
    decrypt_id_v1_to_v0, encrypt_id_v0_to_v1, spec_decrypt_id_v1_to_v0, spec_encrypt_id_v0_to_v1,
    EncryptionKey,
};
use crate::layout::{
    is_tnid_bits, lemma_assemble, lemma_same_kept_bits, lemma_v0_id_valid, lemma_v1_id_valid,
    UUID_BITS_MASK,
    spec_assemble,
};
use crate::name_encoding::{
    extract_name_string, is_name_char, is_name_chars, is_valid_name, lemma_name_check_valid, lemma_extract_name_valid, lemma_valid_name_check,
    name_bits_to_hex, name_mask, spec_extract_name, spec_name_hex, validate_name_bits,
    NameBitsValidation, NameStr,
};
use crate::tnid_variant::{spec_variant_of_id, TNIDVariant, TnidVariant};
use crate::typed::{ascii_bytes, find_dot, first_dot, from_u128_accepts, lemma_first_dot_bound, lemma_tnid_string_roundtrip, spec_tnid_string, tnid_string_of, Tnid, TnidName};
use crate::utils::{spec_uuid_string, u128_to_uuid_string, Case, UUID_V8_MASK};
use crate::uuidlike::{lemma_uuid_string_roundtrip, parse_uuid_bytes, spec_parse_uuid};
use crate::v0::{self, spec_v0_id};
use crate::v1::{self, spec_v1_id};
use vstd::string::StringSliceAdditionalSpecFns;

verus! {

/// The value of a result, with the error dropped.
pub open spec fn ok_value<E>(r: Result<u128, E>) -> Option<u128> {
    match r {
        Ok(v) => Some(v),
        Err(_) => None,
    }
}

/// The value of `from_u128` on `id`: the id itself when it is a TNID.
pub open spec fn spec_dynamic_from_u128(id: u128) -> Option<u128> {
    if is_tnid_bits(id) {
        Some(id)
    } else {
        None
    }
}

/// What parsing the bytes `b` of a TNID string gives when any name is allowed: the
/// name is the part before the first `.`, the data the 17 characters after it.
pub open spec fn spec_parse_dynamic_tnid_string(b: Seq<u8>) -> Option<u128> {
    let dot = first_dot(b, 0);
    let name = vstd::utf8::decode_utf8(b.subrange(0, dot));
    if b.len() < 19 || b.len() > 22 || dot == b.len() || !is_valid_name(name) {
        None
    } else {
        match spec_string_to_id_data(b.subrange(dot + 1, b.len() as int)) {
            Err(_) => None,
            Ok(data) => Some(spec_assemble(name, data)),
        }
    }
}

/// What parsing the bytes `b` of a UUID string gives when any name is allowed.
pub open spec fn spec_parse_dynamic_uuid_string(b: Seq<u8>) -> Option<u128> {
    match spec_parse_uuid(b) {
        Err(_) => None,
        Ok(id) => spec_dynamic_from_u128(id),
    }
}

/// The 16 big-endian bytes of a 128-bit value.
pub open spec fn spec_be_bytes(x: u128) -> Seq<u8> {
    Seq::new(16, |i: int| ((x >> (8 * (15 - i)) as u128) & 0xff) as u8)
}

/// The value of the big-endian bytes `b[0..k]`.
pub open spec fn be_value(b: Seq<u8>, k: int) -> int
    decreases k,
{
    if k <= 0 {
        0
    } else {
        be_value(b, k - 1) * 256 + b[k - 1]
    }
}

/// `256^k`.
pub open spec fn pow256(k: nat) -> int
    decreases k,
{
    if k == 0 {
        1
    } else {
        256 * pow256((k - 1) as nat)
    }
}

/// A TNID whose name is only known at run time.
#[derive(Debug, Clone, Copy, PartialEq, Eq, Hash, PartialOrd, Ord)]
pub struct DynamicTnid(u128);

impl DynamicTnid {
    #[verifier::type_invariant]
    pub(crate) open spec fn wf(self) -> bool {
        is_tnid_bits(self@)
    }
}

impl View for DynamicTnid {
    type V = u128;

    closed spec fn view(&self) -> u128 {
        self.0
    }
}

/// Reads a 128-bit value from exactly 16 big-endian bytes; any other length is
/// refused with that length.
pub fn bytes_to_u128(bytes: &[u8]) -> (r: Result<u128, usize>)
    ensures
        bytes@.len() == 16 ==> be_value(bytes@, 16) <= u128::MAX && r == Ok::<u128, usize>(
            be_value(bytes@, 16) as u128,
        ),
        bytes@.len() != 16 ==> r == Err::<u128, usize>(bytes@.len() as usize),
{
    if bytes.len() != 16 {
        return Err(bytes.len());
    }
    let mut v: u128 = 0;
    let mut i: usize = 0;
    proof {
        reveal_with_fuel(pow256, 16);
        assert(pow256(15) == 0x1_0000_0000_0000_0000_0000_0000_0000_00);
    }
    while i < 16
        invariant
            i <= 16,
            bytes@.len() == 16,
            v == be_value(bytes@, i as int),
            v < pow256(i as nat),
            pow256(15) == 0x1_0000_0000_0000_0000_0000_0000_0000_00,
        decreases 16 - i,
    {
        proof {
            lemma_pow256_mono(i as nat, 15);
        }
        let b = bytes[i];
        v = v * 256 + (b as u128);
        i += 1;
    }
    Ok(v)
}

/// The bits held by an optional dynamic TNID.
pub open spec fn dynamic_bits(r: Option<DynamicTnid>) -> Option<u128> {
    match r {
        Some(d) => Some(d@),
        None => None,
    }
}

impl DynamicTnid {
    fn from_checked_bits(id: u128) -> (r: Self)
        requires
            is_tnid_bits(id),
        ensures
            r@ == id,
    {
        DynamicTnid(id)
    }

    /// Generates a new v0 TNID with the given name from the current time and random bits.
    pub fn new_v0(name: NameStr) -> (r: Option<Self>)
        ensures
            r matches Some(d) && exists|m: u64, rb: u64| d@ == #[trigger] spec_v0_id(name@, m, rb),
    {
        Self::new_v0_with_time(name, now_utc())
    }

    /// Generates a new time-ordered TNID (alias for [`Self::new_v0`]).
    pub fn new_time_ordered(name: NameStr) -> (r: Option<Self>)
        ensures
            r matches Some(d) && exists|m: u64, rb: u64| d@ == #[trigger] spec_v0_id(name@, m, rb),
    {
        Self::new_v0(name)
    }

    /// Generates a new v0 TNID with the given name for the given time, with random bits.
    ///
    /// The timestamp is the time in whole milliseconds since the Unix epoch, wrapped to
    /// 64 bits; only its low 43 bits are stored.
    pub fn new_v0_with_time(name: NameStr, time: OffsetDateTime) -> (r: Option<Self>)
        ensures
            r matches Some(d) && exists|m: u64, rb: u64| d@ == #[trigger] spec_v0_id(name@, m, rb),
    {
        let epoch_millis = epoch_millis_from_nanos(unix_timestamp_nanos(&time));
        let random_bits = random_u64();
        Self::new_v0_with_parts(name, epoch_millis, random_bits)
    }

    /// Builds a v0 TNID from a name, milliseconds since the Unix epoch (43 bits are used)
    /// and random bits (57 bits are used).
    pub fn new_v0_with_parts(name: NameStr, epoch_millis: u64, random: u64) -> (r: Option<Self>)
        ensures
            r matches Some(d) && d@ == spec_v0_id(name@, epoch_millis, random),
    {
        proof {
            use_type_invariant(&name);
            lemma_v0_id_valid(name@, epoch_millis, random);
        }
        Some(Self::from_checked_bits(v0::make_from_parts(name, epoch_millis, random)))
    }

    /// Generates a new v1 TNID with the given name from random bits.
    pub fn new_v1(name: NameStr) -> (r: Option<Self>)
        ensures
            r matches Some(d) && exists|rb: u128| d@ == #[trigger] spec_v1_id(name@, rb),
    {
        Self::new_v1_with_random(name, random_u128())
    }

    /// Generates a new high-entropy TNID (alias for [`Self::new_v1`]).
    pub fn new_high_entropy(name: NameStr) -> (r: Option<Self>)
        ensures
            r matches Some(d) && exists|rb: u128| d@ == #[trigger] spec_v1_id(name@, rb),
    {
        Self::new_v1(name)
    }

    /// Builds a v1 TNID from a name and random bits (100 of them are used).
    pub fn new_v1_with_random(name: NameStr, random_bits: u128) -> (r: Option<Self>)
        ensures
            r matches Some(d) && d@ == spec_v1_id(name@, random_bits),
    {
        proof {
            use_type_invariant(&name);
            lemma_v1_id_valid(name@, random_bits);
        }
        Some(Self::from_checked_bits(v1::make_from_parts(name, random_bits)))
    }

    /// Accepts a raw 128-bit value that is a TNID of any name: its UUID version and
    /// variant bits are exactly those of UUIDv8 and its name bits are well formed.
    pub fn from_u128(id: u128) -> (r: Option<Self>)
        ensures
            dynamic_bits(r) == spec_dynamic_from_u128(id),
    {
        if (id & UUID_BITS_MASK) != UUID_V8_MASK {
            return None;
        }
        match validate_name_bits(id) {
            NameBitsValidation::Invalid => None,
            NameBitsValidation::Valid => Some(Self::from_checked_bits(id)),
        }
    }

    /// Parses a TNID string `<name>.<data>` of any valid name.
    pub fn parse_tnid_string(s: &str) -> (r: Option<Self>)
        ensures
            dynamic_bits(r) == spec_parse_dynamic_tnid_string(s.spec_bytes()),
    {
        let bytes = s.as_bytes();
        let len = bytes.len();
        if len < 19 || len > 22 {
            return None;
        }
        let dot = find_dot(bytes);
        if dot == len {
            return None;
        }
        proof {
            vstd::utf8::encode_utf8_valid_utf8(s@);
            vstd::utf8::is_char_boundary_iff_not_is_continuation_byte(s.spec_bytes(), dot as int);
        }
        let (name_part, _data_part) = s.split_at(dot);
        proof {
            vstd::utf8::encode_utf8_decode_utf8(name_part@);
            if is_valid_name(name_part@) {
                lemma_valid_name_check(name_part);
            }
        }
        let name = match NameStr::new(name_part) {
            Ok(n) => n,
            Err(_) => {
                return None;
            },
        };
        proof {
            lemma_name_check_valid(name_part);
        }
        let data = match data_bytes_to_id_data(&bytes[dot + 1..len]) {
            Ok(d) => d,
            Err(_) => {
                return None;
            },
        };
        let id = name_mask(name) | UUID_V8_MASK | expand_data_bits(data);
        proof {
            lemma_assemble(name@, data);
        }
        Some(Self::from_checked_bits(id))
    }

    /// Parses a UUID hex string (either case) holding a TNID of any valid name.
    pub fn parse_uuid_string(s: &str) -> (r: Option<Self>)
        ensures
            dynamic_bits(r) == spec_parse_dynamic_uuid_string(s.spec_bytes()),
    {
        match parse_uuid_bytes(s.as_bytes()) {
            Ok(id) => Self::from_u128(id),
            Err(_) => None,
        }
    }

    /// The name stored in the id's bits.
    pub fn name(&self) -> (r: String)
        ensures
            r@ == spec_extract_name(self@),
            is_valid_name(r@),
    {
        proof {
            use_type_invariant(self);
            lemma_extract_name_valid(self.0);
        }
        match extract_name_string(self.0) {
            Some(name) => name,
            None => {
                proof {
                    assert(false);
                }
                String::new()
            },
        }
    }

    /// The 20-bit name field as five lowercase hex digits.
    pub fn name_hex(&self) -> (r: String)
        ensures
            r@ == spec_name_hex(self@),
    {
        name_bits_to_hex(self.0)
    }

    /// Returns the raw 128-bit value.
    pub fn as_u128(&self) -> (r: u128)
        ensures
            r == self@,
            is_tnid_bits(r),
    {
        proof {
            use_type_invariant(self);
        }
        self.0
    }

    /// Returns the TNID variant.
    pub fn variant(&self) -> (r: TnidVariant)
        ensures
            r == spec_variant_of_id(self@),
    {
        TNIDVariant::from_id(self.0)
    }

    /// Returns the TNID string `<name>.<data>`.
    pub fn to_tnid_string(&self) -> (r: String)
        ensures
            r@ == spec_tnid_string(self@),
    {
        proof {
            use_type_invariant(self);
        }
        tnid_string_of(self.0)
    }

    /// Formats the id as a UUID hex string in the given case.
    pub fn to_uuid_string(&self, uppercase: bool) -> (r: String)
        ensures
            r@ == spec_uuid_string(self@, uppercase),
    {
        let case = if uppercase {
            Case::Upper
        } else {
            Case::Lower
        };
        u128_to_uuid_string(self.0, case)
    }

    /// The 16 big-endian bytes of the id.
    pub fn to_bytes(&self) -> (r: [u8; 16])
        ensures
            r@ == spec_be_bytes(self@),
    {
        let x = self.0;
        let mut out = [0u8; 16];
        let mut i: usize = 0;
        while i < 16
            invariant
                i <= 16,
                x == self@,
                out@.len() == 16,
                forall|k: int| 0 <= k < i ==> out@[k] == #[trigger] spec_be_bytes(x)[k],
            decreases 16 - i,
        {
            let shift = (8 * (15 - i)) as u128;
            out[i] = ((x >> shift) & 0xff) as u8;
            i += 1;
        }
        proof {
            assert(out@ =~= spec_be_bytes(x));
        }
        out
    }

    /// Reads a TNID of any name from its 16 big-endian bytes.
    pub fn from_bytes(bytes: [u8; 16]) -> (r: Option<Self>)
        ensures
            be_value(bytes@, 16) <= u128::MAX,
            dynamic_bits(r) == spec_dynamic_from_u128(be_value(bytes@, 16) as u128),
    {
        match bytes_to_u128(bytes.as_slice()) {
            Ok(v) => Self::from_u128(v),
            Err(_) => None,
        }
    }

    /// Parses either text form of a TNID of any name: a string that holds a `.` as a
    /// TNID string, any other as a UUID hex string.
    pub fn parse_tnid_or_uuid_str(s: &str) -> (r: Option<Self>)
        ensures
            dynamic_bits(r) == (if first_dot(s.spec_bytes(), 0) < s.spec_bytes().len() {
                spec_parse_dynamic_tnid_string(s.spec_bytes())
            } else {
                spec_parse_dynamic_uuid_string(s.spec_bytes())
            }),
    {
        let bytes = s.as_bytes();
        if find_dot(bytes) < bytes.len() {
            Self::parse_tnid_string(s)
        } else {
            Self::parse_uuid_string(s)
        }
    }

    /// Encrypts a v0 TNID to a v1 TNID under the key, hiding its timestamp.
    ///
    /// A v1 TNID comes back unchanged; v2 and v3 give `None`.
    pub fn encrypt_v0_to_v1(&self, key: EncryptionKey) -> (r: Option<Self>)
        ensures
            dynamic_bits(r) == ok_value(spec_encrypt_id_v0_to_v1(self@, key@)),
            spec_variant_of_id(self@) == TNIDVariant::V0 ==> (r matches Some(e)
                && spec_variant_of_id(e@) == TNIDVariant::V1 && spec_decrypt_id_v1_to_v0(e@, key@)
                == Ok::<u128, crate::encryption::EncryptionError>(self@)),
    {
        proof {
            use_type_invariant(self);
        }
        match encrypt_id_v0_to_v1(self.0, &key) {
            Ok(id) => {
                proof {
                    if spec_variant_of_id(self.0) == TNIDVariant::V0 {
                        lemma_same_kept_bits(id, self.0, seq![]);
                    }
                }
                Some(Self::from_checked_bits(id))
            },
            Err(_) => None,
        }
    }

    /// Decrypts a v1 TNID back to the v0 TNID it was encrypted from.
    ///
    /// A v0 TNID comes back unchanged; v2 and v3 give `None`.
    pub fn decrypt_v1_to_v0(&self, key: EncryptionKey) -> (r: Option<Self>)
        ensures
            dynamic_bits(r) == ok_value(spec_decrypt_id_v1_to_v0(self@, key@)),
            spec_variant_of_id(self@) == TNIDVariant::V1 ==> (r matches Some(d)
                && spec_variant_of_id(d@) == TNIDVariant::V0 && spec_encrypt_id_v0_to_v1(d@, key@)
                == Ok::<u128, crate::encryption::EncryptionError>(self@)),
    {
        proof {
            use_type_invariant(self);
        }
        match decrypt_id_v1_to_v0(self.0, &key) {
            Ok(id) => {
                proof {
                    if spec_variant_of_id(self.0) == TNIDVariant::V1 {
                        lemma_same_kept_bits(id, self.0, seq![]);
                    }
                }
                Some(Self::from_checked_bits(id))
            },
            Err(_) => None,
        }
    }
}

impl<Name: TnidName> From<Tnid<Name>> for DynamicTnid {
    fn from(tnid: Tnid<Name>) -> (r: Self)
        ensures
            r@ == tnid@,
    {
        Self::from_checked_bits(tnid.as_u128())
    }
}

impl<Name: TnidName> vstd::std_specs::convert::FromSpecImpl<Tnid<Name>> for DynamicTnid {
    open spec fn obeys_from_spec() -> bool {
        true
    }

    closed spec fn from_spec(v: Tnid<Name>) -> DynamicTnid {
        DynamicTnid(v@)
    }
}

impl<Name: TnidName> TryFrom<DynamicTnid> for Tnid<Name> {
    type Error = ();

    /// Accepts the dynamic TNID when its name is the one of `Name`.
    fn try_from(dynamic: DynamicTnid) -> (r: Result<Self, ()>)
        ensures
            match r {
                Ok(t) => from_u128_accepts(Name::spec_id_name(), dynamic@) && t@ == dynamic@,
                Err(_) => !from_u128_accepts(Name::spec_id_name(), dynamic@),
            },
    {
        match Tnid::<Name>::from_u128(dynamic.as_u128()) {
            Ok(t) => Ok(t),
            Err(_) => Err(()),
        }
    }
}

/// The general specification is not claimed here, where the fields of `Tnid` cannot be
/// named; `try_from` states its outcome itself.
impl<Name: TnidName> vstd::std_specs::convert::TryFromSpecImpl<DynamicTnid> for Tnid<Name> {
    open spec fn obeys_try_from_spec() -> bool {
        false
    }

    open spec fn try_from_spec(v: DynamicTnid) -> Result<Self, ()> {
        Err(())
    }
}

proof fn lemma_pow256_mono(a: nat, b: nat)
    requires
        a <= b,
    ensures
        pow256(a) <= pow256(b),
        pow256(a) >= 1,
    decreases b,
{
    if b > 0 {
        if a < b {
            lemma_pow256_mono(a, (b - 1) as nat);
        }
        lemma_pow256_mono(0, (b - 1) as nat);
    }
}

/// The leading `k` big-endian bytes of `x` are the value of its top `8k` bits.
proof fn lemma_be_prefix(x: u128, k: int)
    requires
        0 <= k <= 16,
    ensures
        be_value(spec_be_bytes(x), k) == (x >> (8 * (16 - k)) as u128) as int,
    decreases k,
{
    if k == 0 {
        lemma_shr_ends(x);
    } else {
        lemma_be_prefix(x, k - 1);
        let s = (8 * (16 - k)) as u128;
        lemma_split_digit(x, s);
        lemma_and_le(x >> s, 0xff);
    }
}

/// Law: reading back the big-endian bytes of a value gives the value.
pub proof fn lemma_be_bytes_roundtrip(x: u128)
    ensures
        be_value(spec_be_bytes(x), 16) == x,
{
    lemma_be_prefix(x, 16);
    lemma_shr_ends(x);
}

/// Law: the bytes of a TNID read back as that TNID.
pub proof fn lemma_dynamic_bytes_roundtrip(id: u128)
    requires
        is_tnid_bits(id),
    ensures
        spec_dynamic_from_u128(be_value(spec_be_bytes(id), 16) as u128) == Some(id),
{
    lemma_be_bytes_roundtrip(id);
}

/// Law: a raw value is accepted back exactly when it is a TNID.
pub proof fn lemma_dynamic_u128_roundtrip(id: u128)
    requires
        is_tnid_bits(id),
    ensures
        spec_dynamic_from_u128(id) == Some(id),
{
}

/// Law: parsing the TNID string of a TNID gives it back.
pub proof fn lemma_dynamic_tnid_string_roundtrip(id: u128, s: &str)
    requires
        is_tnid_bits(id),
        s@ == spec_tnid_string(id),
    ensures
        spec_parse_dynamic_tnid_string(s.spec_bytes()) == Some(id),
{
    let n = spec_extract_name(id);
    lemma_extract_name_valid(id);
    lemma_tnid_string_roundtrip(id, n, s);
    let b = s.spec_bytes();
    let dot = first_dot(b, 0);
    lemma_first_dot_bound(b, 0);
    assert(!(b.len() < 19 || b.len() > 22) && dot != b.len());
    assert(b.subrange(0, dot) == ascii_bytes(n));
    assert(dot == n.len());
    assert(is_name_chars(n));
    assert forall|i: int| 0 <= i < n.len() implies '\0' <= #[trigger] n[i] <= '\u{7f}' by {
        assert(is_name_char(n[i]));
    }
    vstd::utf8::is_ascii_chars_encode_utf8(n);
    assert(vstd::utf8::encode_utf8(n) =~= b.subrange(0, dot));
    vstd::utf8::encode_utf8_decode_utf8(n);
}

/// Law: parsing the UUID string of a TNID, in either case, gives it back.
pub proof fn lemma_dynamic_uuid_string_roundtrip(id: u128, upper: bool, s: &str)
    requires
        is_tnid_bits(id),
        s@ == spec_uuid_string(id, upper),
    ensures
        spec_parse_dynamic_uuid_string(s.spec_bytes()) == Some(id),
{
    lemma_uuid_string_roundtrip(id, upper, s);
}

} // verus!
