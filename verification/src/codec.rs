//! The JSON codec boundary.
//!
//! Parsing and printing JSON text is delegated to serde_json; its parsed
//! representation (`serde_json::Value`) is carried through opaquely.  A
//! type takes part in load and save by implementing [`FromJson`] and
//! [`ToJson`], converting between itself and that representation.

use vstd::prelude::*;

verus! {

#[verifier::external_type_specification]
#[verifier::external_body]
pub struct ExValue(serde_json::Value);

/// A type that can be rebuilt from a parsed JSON value.  The error text
/// describes which part of the expected shape was missing or mismatched.
pub trait FromJson: Sized {
    fn from_json(v: serde_json::Value) -> Result<Self, String>;
}

/// A type that can present itself as a JSON value.  The error text
/// describes why the value has no JSON representation.
pub trait ToJson {
    fn to_json(&self) -> Result<serde_json::Value, String>;
}

/// Holds exactly when serde_json's parser accepts `bytes` as one complete
/// JSON document.
pub uninterp spec fn well_formed_json(bytes: Seq<u8>) -> bool;

/// Relies on serde_json::from_slice::<Value>: it returns `Ok` exactly when
/// the bytes form one well-formed JSON document, and the outcome depends
/// on the bytes alone.  A failure is handed on as its display text.
#[verifier::external_body]
pub(crate) fn parse_value(bytes: &Vec<u8>) -> (r: Result<serde_json::Value, String>)
    ensures
        r is Ok <==> well_formed_json(bytes@),
{
    serde_json::from_slice(bytes.as_slice()).map_err(|e| e.to_string())
}

/// Relies on serde_json::to_string::<Value>: it renders the value as JSON
/// text, failing only when the value admits no representation.  A failure
/// is handed on as its display text.
#[verifier::external_body]
pub(crate) fn value_to_text(v: &serde_json::Value) -> (r: Result<String, String>) {
    serde_json::to_string(v).map_err(|e| e.to_string())
}

} // verus!
