//! The error type of id generation and parsing.
use vstd::prelude::*;

use crate::text::push_str;

verus! {

/// Errors of id generation and parsing.
#[derive(Debug)]
pub enum Error {
    /// The clock could not give the time (holds a description of the cause).
    TimeError(String),
    /// The string is not a UUID.
    InvalidUuidFormat,
    /// The UUID is not a UUIDv8.
    InvalidUuidVersion,
    /// The name bits do not hold a valid name.
    InvalidNameEncoding,
}

/// The description of an error.
pub open spec fn spec_error_message(e: Error) -> Seq<char> {
    match e {
        Error::TimeError(cause) => "Time Error: "@ + cause@,
        Error::InvalidUuidFormat => "Invalid UUID format"@,
        Error::InvalidUuidVersion => "Invalid TNID: not UUIDv8 format"@,
        Error::InvalidNameEncoding => "Invalid TNID: invalid name encoding"@,
    }
}

impl Error {
    /// A description of the error.
    pub fn message(&self) -> (r: String)
        ensures
            r@ == spec_error_message(*self),
    {
        let mut s = String::new();
        match self {
            Error::TimeError(cause) => {
                push_str(&mut s, "Time Error: ");
                push_str(&mut s, cause.as_str());
            },
            Error::InvalidUuidFormat => push_str(&mut s, "Invalid UUID format"),
            Error::InvalidUuidVersion => push_str(&mut s, "Invalid TNID: not UUIDv8 format"),
            Error::InvalidNameEncoding => push_str(&mut s, "Invalid TNID: invalid name encoding"),
        }
        proof {
            assert(s@ =~= spec_error_message(*self));
        }
        s
    }
}

} // verus!
