//! Conversions between [`TNID`] and `uuid::Uuid`.
//!
//! Every TNID is a UUIDv8, so a TNID always converts to a `Uuid`. A `Uuid` converts
//! back only when it is a TNID of the expected name.
use vstd::prelude::*;

use uuid::Uuid;

use crate::tnid_opt::TNID;
use crate::typed::{from_u128_accepts, TnidName};

verus! {

/// Error type for conversion from `uuid::Uuid` to [`TNID`].
#[derive(Debug, Clone, Copy, PartialEq, Eq)]
pub enum TnidFromUuidError {
    /// The UUID is not a valid TNID (wrong version/variant or name mismatch).
    InvalidTnid,
}

impl TnidFromUuidError {
    /// A description of the error.
    pub fn message(&self) -> (r: &'static str)
        ensures
            r@ == "UUID is not a valid TNID (wrong version/variant or name mismatch)"@,
    {
        match self {
            TnidFromUuidError::InvalidTnid => "UUID is not a valid TNID (wrong version/variant or name mismatch)",
        }
    }
}

/// A UUID from the `uuid` crate.
#[verifier::external_type_specification]
#[verifier::external_body]
pub struct ExUuid(Uuid);

/// The UUID that `Uuid::from_u128` builds from `v`.
pub uninterp spec fn uuid_of_u128(v: u128) -> Uuid;

/// Calls `Uuid::from_u128` (crate `uuid`), which stores the big-endian bytes of `v`.
#[verifier::external_body]
fn uuid_from_u128(v: u128) -> (r: Uuid)
    ensures
        r == uuid_of_u128(v),
{
    Uuid::from_u128(v)
}

/// Calls `Uuid::as_u128` (crate `uuid`), which reads the 16 bytes back big-endian.
///
/// Claimed of the outside code: it inverts `Uuid::from_u128`, so the UUID is the one
/// built from the result and from no other value.
#[verifier::external_body]
fn uuid_as_u128(u: &Uuid) -> (r: u128)
    ensures
        uuid_of_u128(r) == *u,
        forall|v: u128| #[trigger] uuid_of_u128(v) == *u ==> v == r,
{
    u.as_u128()
}

impl<Name: TnidName> From<TNID<Name>> for Uuid {
    /// The UUID holding the TNID's 128 bits.
    fn from(tnid: TNID<Name>) -> (r: Uuid)
        ensures
            r == uuid_of_u128(tnid@),
    {
        uuid_from_u128(tnid.as_u128())
    }
}

impl<Name: TnidName> vstd::std_specs::convert::FromSpecImpl<TNID<Name>> for Uuid {
    open spec fn obeys_from_spec() -> bool {
        true
    }

    open spec fn from_spec(v: TNID<Name>) -> Uuid {
        uuid_of_u128(v@)
    }
}

impl<Name: TnidName> TryFrom<Uuid> for TNID<Name> {
    type Error = TnidFromUuidError;

    /// Accepts the UUID when its bits are a TNID of the name of `Name`.
    fn try_from(uuid: Uuid) -> (r: Result<Self, TnidFromUuidError>)
        ensures
            forall|v: u128|
                #[trigger] uuid_of_u128(v) == uuid ==> match r {
                    Ok(t) => from_u128_accepts(Name::spec_id_name(), v) && t@ == v,
                    Err(e) => !from_u128_accepts(Name::spec_id_name(), v) && e
                        == TnidFromUuidError::InvalidTnid,
                },
    {
        let bits = uuid_as_u128(&uuid);
        match TNID::<Name>::from_u128(bits) {
            Some(t) => Ok(t),
            None => Err(TnidFromUuidError::InvalidTnid),
        }
    }
}

/// The general specification is not claimed here, where the fields of `TNID` cannot be
/// named; `try_from` states its outcome itself.
impl<Name: TnidName> vstd::std_specs::convert::TryFromSpecImpl<Uuid> for TNID<Name> {
    open spec fn obeys_try_from_spec() -> bool {
        false
    }

    open spec fn try_from_spec(v: Uuid) -> Result<Self, TnidFromUuidError> {
        Err(TnidFromUuidError::InvalidTnid)
    }
}

} // verus!
