//! Persist structured values to and from JSON files.
//!
//! The library is split along the I/O boundary: everything that computes
//! (path extension normalization, UTF-8 validation, the staged decode and
//! encode pipelines, and the open-retry decision) lives here with proved
//! contracts, while the thin shell that actually opens, reads and writes
//! files sits outside the verified core and hands plain values in and out.
//!
//! The path policy is: a save always writes to the path with its extension
//! forced to `.json`; a load first opens the path exactly as given and,
//! only when that file does not exist, retries once at the `.json` path.

mod codec;
mod error;
mod ops;
mod path_ext;
mod utf8_check;

pub use crate::codec::FromJson;
pub use crate::codec::ToJson;
pub use crate::codec::well_formed_json;
pub use crate::error::Error;
pub use crate::error::IoKind;
pub use crate::ops::encode_to_bytes;
pub use crate::ops::first_open_failed;
pub use crate::ops::load_from_bytes;
pub use crate::ops::open_error;
pub use crate::path_ext::json_suffix;
pub use crate::path_ext::lemma_name_start_props;
pub use crate::path_ext::spec_last_dot;
pub use crate::path_ext::spec_name_start;
pub use crate::path_ext::lemma_extension_normalization;
pub use crate::path_ext::lemma_with_json_ext_idempotent;
pub use crate::path_ext::spec_with_json_ext;
pub use crate::path_ext::with_json_extension;
pub use crate::utf8_check::validate_utf8;
