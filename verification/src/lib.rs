//! TNIDs: UUIDv8-compatible identifiers that carry a short name and have a
//! sortable, unambiguous string form.

pub mod name_encoding;
mod text;
mod bits;
pub mod data_encoding;
pub mod utils;
pub mod tnid_variant;
pub mod v0;
pub mod v1;
pub mod encryption;
pub mod uuidlike;
pub mod layout;
pub mod clock;
pub mod typed;
pub mod filter;
pub mod dynamic_tnid;
pub mod tnid_opt;
pub mod uuid_interop;
pub mod error;
pub mod ordering;
pub mod cli;

pub use name_encoding::{NameBitsValidation, NameError, NameStr};
pub use tnid_variant::{TNIDVariant, TnidVariant};
pub use utils::Case;
pub use data_encoding::DataEncodingError;
pub use uuidlike::{ParseUuidStringError, UUIDLike, UuidLike};
pub use typed::{ParseTnidError, Tnid, TnidName};
pub use dynamic_tnid::DynamicTnid;
pub use tnid_opt::TNID;
pub use uuid_interop::TnidFromUuidError;
pub use error::Error;
pub use typed::TnidName as TNIDName;
