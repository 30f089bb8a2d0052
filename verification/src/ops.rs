//! The staged load and save pipelines, and the open-retry decision.
//!
//! File handles never appear here: the surrounding shell opens, reads and
//! writes, and hands bytes and failure kinds in as plain values.

use vstd::prelude::*;
use vstd::utf8::valid_utf8;
use vstd::utf8::encode_utf8_valid_utf8;

use crate::codec::FromJson;
use crate::codec::ToJson;
use crate::codec::parse_value;
use crate::codec::value_to_text;
use crate::codec::well_formed_json;
use crate::error::Error;
use crate::error::IoKind;
use crate::path_ext::spec_with_json_ext;
use crate::path_ext::with_json_extension;

verus! {

/// Decode a value of type `T` from the raw contents of a file.
///
/// The stages fail in order and each failure names its stage: bytes that
/// are not valid UTF-8 are a text-decoding failure, valid text that is not
/// well-formed JSON is a parse failure, and well-formed JSON that `T` does
/// not accept is a shape failure.  No other failure can come out.
pub fn load_from_bytes<T: FromJson>(bytes: &Vec<u8>) -> (r: Result<T, Error>)
    ensures
        !valid_utf8(bytes@) ==> (r matches Err(e) && e matches Error::Utf8(i) && i <= bytes@.len()
            && valid_utf8(bytes@.take(i as int))),
        valid_utf8(bytes@) && !well_formed_json(bytes@) ==> (r matches Err(e) && e is Parse),
        valid_utf8(bytes@) && well_formed_json(bytes@) ==> (r is Ok || (r matches Err(e)
            && e is Decode)),
{
    match crate::utf8_check::validate_utf8(bytes) {
        Err(i) => Err(Error::Utf8(i)),
        Ok(()) => match parse_value(bytes) {
            Err(m) => Err(Error::Parse(m)),
            Ok(v) => match T::from_json(v) {
                Err(m) => Err(Error::Decode(m)),
                Ok(t) => Ok(t),
            },
        },
    }
}

/// Encode a value of type `T` as the bytes of a JSON document.
///
/// Only the encoding stage can fail; what comes out is always valid UTF-8,
/// so loading it back can never stop at the text-decoding stage.
pub fn encode_to_bytes<T: ToJson>(t: &T) -> (r: Result<Vec<u8>, Error>)
    ensures
        r matches Err(e) ==> e is Encode,
        r matches Ok(b) ==> valid_utf8(b@),
{
    match t.to_json() {
        Err(m) => Err(Error::Encode(m)),
        Ok(v) => match value_to_text(&v) {
            Err(m) => Err(Error::Encode(m)),
            Ok(s) => {
                proof {
                    encode_utf8_valid_utf8(s@);
                }
                Ok(s.as_str().as_bytes_vec())
            },
        },
    }
}

/// Decide what a failed first open means for a load: a missing file is
/// retried at the path with its extension forced to `.json`, every other
/// failure is surfaced as the I/O error it was.
pub fn first_open_failed(path: &str, kind: IoKind, message: String) -> (r: Result<String, Error>)
    ensures
        kind is NotFound ==> (r matches Ok(fb) && fb@ == spec_with_json_ext(path@)),
        !(kind is NotFound) ==> r == Err::<String, Error>(Error::Io(kind, message)),
{
    match kind {
        IoKind::NotFound => Ok(with_json_extension(path)),
        IoKind::Other => Err(Error::Io(kind, message)),
    }
}

/// Wrap an operating-system failure, unchanged, as the library's I/O
/// error.  A failure of the retried open, or of any read or write, passes
/// through here and is never reinterpreted as another stage's failure.
pub fn open_error(kind: IoKind, message: String) -> (e: Error)
    ensures
        e == Error::Io(kind, message),
{
    Error::Io(kind, message)
}

} // verus!
