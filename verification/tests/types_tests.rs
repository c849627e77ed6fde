use std::path::PathBuf;

use rustify::paths::{path_to_uri, uri_to_path};
use rustify::types::{PlaybackState, Track};

#[test]
fn track_creation() {
    let track = Track {
        uri: "file:///music/song.mp3".into(),
        name: "Song".into(),
        artists: vec!["Artist".into()],
        album: "Album".into(),
        length: 180_000,
        track_no: Some(1),
    };
    assert_eq!(track.name, "Song");
    assert_eq!(track.length, 180_000);
}

#[test]
fn uri_to_path_with_scheme() {
    let path = uri_to_path("file:///home/pi/Music/song.mp3");
    assert_eq!(PathBuf::from(path), PathBuf::from("/home/pi/Music/song.mp3"));
}

#[test]
fn uri_to_path_plain_path() {
    let path = uri_to_path("/home/pi/Music/song.mp3");
    assert_eq!(PathBuf::from(path), PathBuf::from("/home/pi/Music/song.mp3"));
}

#[test]
fn path_to_uri_conversion() {
    let uri = path_to_uri("/home/pi/Music/song.mp3");
    assert_eq!(uri, "file:///home/pi/Music/song.mp3");
}

#[test]
fn playback_state_equality() {
    assert_eq!(PlaybackState::Stopped, PlaybackState::Stopped);
    assert_ne!(PlaybackState::Playing, PlaybackState::Paused);
}

#[test]
fn uri_path_roundtrip() {
    let p = "/music/a b/ç.flac";
    assert_eq!(uri_to_path(&path_to_uri(p)), p);
    assert_eq!(uri_to_path("file://"), "");
}

#[test]
fn track_duplicate_keeps_every_field() {
    let track = Track {
        uri: "file:///x.ogg".into(),
        name: "X".into(),
        artists: vec!["A".into(), "B".into()],
        album: "Y".into(),
        length: 5,
        track_no: None,
    };
    assert_eq!(track.duplicate(), track);
}
