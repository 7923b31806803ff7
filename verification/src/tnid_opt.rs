//! `TNID<Name>`: a typed TNID whose parsers return `Option` and whose encryption takes
//! the raw key bytes.
//!
//! It holds the same values as [`crate::Tnid`]; only the API differs.
use vstd::prelude::*;

use core::marker::PhantomData;

use time::OffsetDateTime;

use crate::clock::{epoch_millis_from_nanos, now_utc, random_u128, random_u64, unix_timestamp_nanos};
use crate::dynamic_tnid::ok_value;
use crate::encryption::{
    decrypt_id_v1_to_v0, encrypt_id_v0_to_v1, spec_decrypt_id_v1_to_v0, spec_encrypt_id_v0_to_v1,
    EncryptionKey,
};
use crate::layout::{has_name, is_tnid_bits, lemma_same_kept_bits, lemma_v0_id_valid, lemma_v1_id_valid};
use crate::name_encoding::{is_valid_name, lemma_name_roundtrip, name_bits_to_hex, spec_name_hex};
use crate::data_encoding::spec_data_string;
use crate::name_encoding::spec_extract_name;
use crate::tnid_variant::{spec_variant_of_id, TNIDVariant};
use crate::typed::{
    check_u128_for_name, from_u128_accepts, parse_tnid_string_for_name,
    parse_tnid_string_outcome, parse_uuid_string_for_name, parse_uuid_string_outcome,
    tnid_string_of, TnidName,
};
use crate::utils::{spec_uuid_string, u128_to_uuid_string, Case};
use crate::v0::{self, spec_v0_id};
use crate::v1::{self, spec_v1_id};
use vstd::string::StringSliceAdditionalSpecFns;

verus! {

/// A typed TNID whose name comes from a [`TnidName`] type.
///
/// Every value is a TNID: its UUIDv8 bits are exact and its name field holds the name of
/// `Name`.
#[derive(Debug, PartialEq, Eq)]
pub struct TNID<Name: TnidName> {
    id_name: PhantomData<Name>,
    id: u128,
}

impl<Name: TnidName> Clone for TNID<Name> {
    fn clone(&self) -> (r: Self)
        ensures
            r == *self,
    {
        proof {
            use_type_invariant(self);
        }
        TNID { id_name: PhantomData, id: self.id }
    }
}

impl<Name: TnidName> Copy for TNID<Name> {

}

impl<Name: TnidName> TNID<Name> {
    #[verifier::type_invariant]
    pub(crate) open spec fn wf(self) -> bool {
        &&& is_tnid_bits(self@)
        &&& is_valid_name(Name::spec_id_name())
        &&& has_name(self@, Name::spec_id_name())
    }
}

impl<Name: TnidName> View for TNID<Name> {
    type V = u128;

    closed spec fn view(&self) -> u128 {
        self.id
    }
}

/// The bits held by an optional `TNID`.
pub open spec fn tnid_option_bits<Name: TnidName>(r: Option<TNID<Name>>) -> Option<u128> {
    match r {
        Some(t) => Some(t@),
        None => None,
    }
}

impl<Name: TnidName> TNID<Name> {
    fn from_checked_bits(id: u128) -> (r: Self)
        requires
            is_tnid_bits(id),
            is_valid_name(Name::spec_id_name()),
            has_name(id, Name::spec_id_name()),
        ensures
            r@ == id,
    {
        TNID { id_name: PhantomData, id }
    }

    /// Returns the name associated with this TNID type.
    pub fn name(&self) -> (r: &'static str)
        ensures
            r@ == Name::spec_id_name(),
            is_valid_name(r@),
    {
        Name::id_name().as_str()
    }

    /// The 20-bit name field as five lowercase hex digits.
    pub fn name_hex(&self) -> (r: String)
        ensures
            r@ == spec_name_hex(self@),
    {
        name_bits_to_hex(self.id)
    }

    /// Returns the raw 128-bit UUIDv8-compatible value.
    pub fn as_u128(&self) -> (r: u128)
        ensures
            r == self@,
            is_tnid_bits(r),
            is_valid_name(Name::spec_id_name()),
            has_name(r, Name::spec_id_name()),
    {
        proof {
            use_type_invariant(self);
        }
        self.id
    }

    /// Generates a new time-ordered TNID (alias for [`Self::new_v0`]).
    pub fn new_time_ordered() -> (r: Self)
        ensures
            exists|m: u64, rb: u64| r@ == #[trigger] spec_v0_id(Name::spec_id_name(), m, rb),
    {
        Self::new_v0()
    }

    /// Generates a new v0 TNID from the current time and random bits.
    pub fn new_v0() -> (r: Self)
        ensures
            exists|m: u64, rb: u64| r@ == #[trigger] spec_v0_id(Name::spec_id_name(), m, rb),
    {
        Self::new_v0_with_time(now_utc())
    }

    /// Generates a new high-entropy TNID (alias for [`Self::new_v1`]).
    pub fn new_high_entropy() -> (r: Self)
        ensures
            exists|rb: u128| r@ == #[trigger] spec_v1_id(Name::spec_id_name(), rb),
    {
        Self::new_v1()
    }

    /// Generates a new v1 TNID from random bits.
    pub fn new_v1() -> (r: Self)
        ensures
            exists|rb: u128| r@ == #[trigger] spec_v1_id(Name::spec_id_name(), rb),
    {
        Self::new_v1_with_random(random_u128())
    }

    /// Builds a v1 TNID from explicit random bits (100 of them are used).
    pub fn new_v1_with_random(random_bits: u128) -> (r: Self)
        ensures
            r@ == spec_v1_id(Name::spec_id_name(), random_bits),
    {
        let name = Name::id_name();
        proof {
            use_type_invariant(&name);
            lemma_v1_id_valid(name@, random_bits);
        }
        Self::from_checked_bits(v1::make_from_parts(name, random_bits))
    }

    /// Generates a new v0 TNID for the given time, with random bits.
    pub fn new_v0_with_time(time: OffsetDateTime) -> (r: Self)
        ensures
            exists|m: u64, rb: u64| r@ == #[trigger] spec_v0_id(Name::spec_id_name(), m, rb),
    {
        let epoch_millis = epoch_millis_from_nanos(unix_timestamp_nanos(&time));
        let random_bits = random_u64();
        Self::new_v0_with_parts(epoch_millis, random_bits)
    }

    /// Builds a v0 TNID from milliseconds since the Unix epoch (43 bits are used) and
    /// random bits (57 bits are used).
    pub fn new_v0_with_parts(epoch_millis: u64, random: u64) -> (r: Self)
        ensures
            r@ == spec_v0_id(Name::spec_id_name(), epoch_millis, random),
    {
        let name = Name::id_name();
        proof {
            use_type_invariant(&name);
            lemma_v0_id_valid(name@, epoch_millis, random);
        }
        Self::from_checked_bits(v0::make_from_parts(name, epoch_millis, random))
    }

    /// Returns the TNID string `<name>.<encoded-data>`.
    pub fn as_tnid_string(&self) -> (r: String)
        ensures
            r@ == spec_extract_name(self@) + seq!['.'] + spec_data_string(self@),
            r@ == Name::spec_id_name() + seq!['.'] + spec_data_string(self@),
    {
        proof {
            use_type_invariant(self);
            lemma_name_roundtrip(Name::spec_id_name(), self.id);
        }
        tnid_string_of(self.id)
    }

    /// Returns the TNID variant.
    pub fn variant(&self) -> (r: TNIDVariant)
        ensures
            r == spec_variant_of_id(self@),
    {
        TNIDVariant::from_id(self.id)
    }

    /// Formats the TNID as a UUID hex string, in upper or lower case.
    pub fn to_uuid_string_cased(&self, uppercase: bool) -> (r: String)
        ensures
            r@ == spec_uuid_string(self@, uppercase),
    {
        let case = if uppercase {
            Case::Upper
        } else {
            Case::Lower
        };
        u128_to_uuid_string(self.id, case)
    }

    /// Parses a UUID hex string (either case) holding a TNID of this name.
    pub fn parse_uuid_string(uuid_string: &str) -> (r: Option<Self>)
        ensures
            exists|o: Result<u128, crate::ParseTnidError>|
                parse_uuid_string_outcome(Name::spec_id_name(), uuid_string.spec_bytes(), o)
                    && tnid_option_bits(r) == #[trigger] ok_value(o),
    {
        let name = Name::id_name();
        proof {
            use_type_invariant(&name);
        }
        let res = parse_uuid_string_for_name(name, uuid_string);
        let r = match res {
            Ok(id) => Some(Self::from_checked_bits(id)),
            Err(_) => None,
        };
        proof {
            assert(is_valid_name(name@) && tnid_option_bits(r) == ok_value(res));
        }
        r
    }

    /// Parses a TNID string `<name>.<encoded-data>` of this name.
    pub fn parse_tnid_string(tnid_string: &str) -> (r: Option<Self>)
        ensures
            exists|o: Result<u128, crate::ParseTnidError>|
                parse_tnid_string_outcome(Name::spec_id_name(), tnid_string.spec_bytes(), o)
                    && tnid_option_bits(r) == #[trigger] ok_value(o),
    {
        let name = Name::id_name();
        proof {
            use_type_invariant(&name);
        }
        let res = parse_tnid_string_for_name(name, tnid_string);
        let r = match res {
            Ok(id) => Some(Self::from_checked_bits(id)),
            Err(_) => None,
        };
        proof {
            assert(is_valid_name(name@) && tnid_option_bits(r) == ok_value(res));
        }
        r
    }

    /// Accepts a raw 128-bit value whose UUID version and variant bits are exactly those
    /// of UUIDv8 and whose name field holds the name of this type.
    pub fn from_u128(num: u128) -> (r: Option<Self>)
        ensures
            tnid_option_bits(r) == (if from_u128_accepts(Name::spec_id_name(), num) {
                Some(num)
            } else {
                None
            }),
    {
        let name = Name::id_name();
        proof {
            use_type_invariant(&name);
        }
        match check_u128_for_name(name, num) {
            Ok(id) => Some(Self::from_checked_bits(id)),
            Err(_) => None,
        }
    }

    /// Encrypts a v0 TNID to a v1 TNID under the 16-byte key, hiding its timestamp.
    ///
    /// A v1 TNID comes back unchanged; v2 and v3 are refused.
    pub fn encrypt_v0_to_v1(&self, secret: [u8; 16]) -> (r: Result<Self, ()>)
        ensures
            match r {
                Ok(t) => spec_encrypt_id_v0_to_v1(self@, secret@) == Ok::<
                    u128,
                    crate::encryption::EncryptionError,
                >(t@),
                Err(_) => spec_encrypt_id_v0_to_v1(self@, secret@) is Err,
            },
    {
        proof {
            use_type_invariant(self);
        }
        let key = EncryptionKey::new(secret);
        match encrypt_id_v0_to_v1(self.id, &key) {
            Ok(id) => {
                proof {
                    if spec_variant_of_id(self.id) == TNIDVariant::V0 {
                        lemma_same_kept_bits(id, self.id, Name::spec_id_name());
                    }
                }
                Ok(Self::from_checked_bits(id))
            },
            Err(_) => Err(()),
        }
    }

    /// Decrypts a v1 TNID back to the v0 TNID it was encrypted from.
    ///
    /// A v0 TNID comes back unchanged; v2 and v3 are refused.
    pub fn decrypt_v1_to_v0(&self, secret: [u8; 16]) -> (r: Result<Self, ()>)
        ensures
            match r {
                Ok(t) => spec_decrypt_id_v1_to_v0(self@, secret@) == Ok::<
                    u128,
                    crate::encryption::EncryptionError,
                >(t@),
                Err(_) => spec_decrypt_id_v1_to_v0(self@, secret@) is Err,
            },
    {
        proof {
            use_type_invariant(self);
        }
        let key = EncryptionKey::new(secret);
        match decrypt_id_v1_to_v0(self.id, &key) {
            Ok(id) => {
                proof {
                    if spec_variant_of_id(self.id) == TNIDVariant::V1 {
                        lemma_same_kept_bits(id, self.id, Name::spec_id_name());
                    }
                }
                Ok(Self::from_checked_bits(id))
            },
            Err(_) => Err(()),
        }
    }
}

} // verus!
