//! The error taxonomy: one variant per failure origin.

use vstd::prelude::*;

verus! {

/// The category of an operating-system I/O failure, as far as the library's
/// own logic distinguishes it: a missing file triggers the `.json` fallback
/// on load, every other failure is surfaced unchanged.
#[derive(Clone, Copy, Debug, PartialEq, Eq, Structural)]
pub enum IoKind {
    /// The file does not exist.
    NotFound,
    /// Any other I/O failure (permissions, hardware, ...).
    Other,
}

/// Everything a load or save can fail with. Each variant names the stage
/// that failed and carries the underlying cause for diagnostic display.
#[derive(Clone, Debug, PartialEq, Eq)]
pub enum Error {
    /// The operating system refused an open, create, read or write.
    Io(IoKind, String),
    /// The file's bytes are not valid UTF-8; carries the length of the
    /// longest valid prefix.
    Utf8(usize),
    /// The text is not well-formed JSON.
    Parse(String),
    /// The JSON is well formed but does not match the target type's shape.
    Decode(String),
    /// The value could not be encoded to JSON.
    Encode(String),
}

impl Error {
    /// The diagnostic text an error displays.
    pub open spec fn spec_message(self) -> Seq<char> {
        match self {
            Error::Io(_, m) => m@,
            Error::Utf8(_) => "file contents are not valid UTF-8"@,
            Error::Parse(m) => m@,
            Error::Decode(m) => m@,
            Error::Encode(m) => m@,
        }
    }

    /// A human-readable description of the failure.
    pub fn message(&self) -> (r: String)
        ensures
            r@ == self.spec_message(),
    {
        match self {
            Error::Io(_, m) => m.clone(),
            Error::Utf8(_) => "file contents are not valid UTF-8".to_owned(),
            Error::Parse(m) => m.clone(),
            Error::Decode(m) => m.clone(),
            Error::Encode(m) => m.clone(),
        }
    }
}

} // verus!
