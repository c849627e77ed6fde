use std::io;

use rustify::error::RustifyError;

#[test]
fn display_io_error() {
    let err = RustifyError::Io(io::Error::new(io::ErrorKind::NotFound, "gone"));
    assert!(err.message().contains("IO error"));
    assert!(err.message().contains("gone"));
}

#[test]
fn display_decode_error() {
    let err = RustifyError::Decode("bad frame".into());
    assert_eq!(err.message(), "decode error: bad frame");
}

#[test]
fn from_io_error() {
    let io_err = io::Error::new(io::ErrorKind::PermissionDenied, "nope");
    let err: RustifyError = io_err.into();
    assert!(matches!(err, RustifyError::Io(_)));
}

#[test]
fn error_source_for_io() {
    let err = RustifyError::Io(io::Error::new(io::ErrorKind::NotFound, "x"));
    assert!(err.source().is_some());
}

#[test]
fn error_source_for_non_io() {
    let err = RustifyError::Decode("x".into());
    assert!(err.source().is_none());
}

#[test]
fn messages_of_each_kind() {
    assert_eq!(RustifyError::Audio("no device".into()).message(), "audio error: no device");
    assert_eq!(RustifyError::Metadata("bad tag".into()).message(), "metadata error: bad tag");
    assert_eq!(RustifyError::Playlist("bad line".into()).message(), "playlist error: bad line");
    assert!(RustifyError::Playlist("p".into()).source().is_none());
}
