//! The library's error type.
use vstd::prelude::*;
use crate::text::has_prefix;

verus! {

#[verifier::external_type_specification]
#[verifier::external_body]
pub struct ExIoError(std::io::Error);

/// Unified error type for all player operations.
#[derive(Debug)]
pub enum RustifyError {
    /// I/O errors (file not found, permission denied, etc.)
    Io(std::io::Error),
    /// Audio decoding errors (corrupt file, unsupported codec)
    Decode(String),
    /// Audio output errors (device not found, ALSA error)
    Audio(String),
    /// Metadata reading errors (corrupt tags, unsupported format)
    Metadata(String),
    /// Playlist parsing errors (invalid M3U, missing files)
    Playlist(String),
}

/// The display text of an I/O error (`<std::io::Error as Display>`). Nothing is
/// stated of it: the text depends on the error's kind and payload, which the
/// library cannot see.
#[verifier::external_body]
fn io_error_text(e: &std::io::Error) -> String {
    e.to_string()
}

/// `prefix` followed by `rest`.
fn prefixed(prefix: &str, rest: &str) -> (s: String)
    ensures
        s@ == prefix@ + rest@,
{
    let mut s = String::new();
    s.append(prefix);
    s.append(rest);
    s
}

impl RustifyError {
    /// The error's message: a label for its kind, a colon, and its detail (for an
    /// I/O error, the error's own text).
    pub fn message(&self) -> (s: String)
        ensures
            match self {
                RustifyError::Io(_) => has_prefix(s@, "IO error: "@),
                RustifyError::Decode(m) => s@ == "decode error: "@ + m@,
                RustifyError::Audio(m) => s@ == "audio error: "@ + m@,
                RustifyError::Metadata(m) => s@ == "metadata error: "@ + m@,
                RustifyError::Playlist(m) => s@ == "playlist error: "@ + m@,
            },
    {
        match self {
            RustifyError::Io(err) => {
                let t = io_error_text(err);
                let s = prefixed("IO error: ", t.as_str());
                assert(s@.subrange(0, "IO error: "@.len() as int) =~= "IO error: "@);
                s
            },
            RustifyError::Decode(m) => prefixed("decode error: ", m.as_str()),
            RustifyError::Audio(m) => prefixed("audio error: ", m.as_str()),
            RustifyError::Metadata(m) => prefixed("metadata error: ", m.as_str()),
            RustifyError::Playlist(m) => prefixed("playlist error: ", m.as_str()),
        }
    }

    /// The underlying I/O error, for an I/O error; `None` for the others.
    pub fn source(&self) -> (r: Option<&std::io::Error>)
        ensures
            match self {
                RustifyError::Io(e) => r == Some(e),
                _ => r is None,
            },
    {
        match self {
            RustifyError::Io(err) => Some(err),
            _ => None,
        }
    }
}

impl From<std::io::Error> for RustifyError {
    fn from(err: std::io::Error) -> (r: RustifyError) {
        RustifyError::Io(err)
    }
}

impl vstd::std_specs::convert::FromSpecImpl<std::io::Error> for RustifyError {
    open spec fn obeys_from_spec() -> bool {
        true
    }

    open spec fn from_spec(v: std::io::Error) -> RustifyError {
        RustifyError::Io(v)
    }
}

} // verus!
