use rustify::library::Library;
use rustify::types::Track;

fn make_tracks() -> Vec<Track> {
    vec![
        Track {
            uri: "file:///music/m83/hurry/midnight.mp3".into(),
            name: "Midnight City".into(),
            artists: vec!["M83".into()],
            album: "Hurry Up, We're Dreaming".into(),
            length: 243_000,
            track_no: Some(1),
        },
        Track {
            uri: "file:///music/m83/hurry/reunion.mp3".into(),
            name: "Reunion".into(),
            artists: vec!["M83".into()],
            album: "Hurry Up, We're Dreaming".into(),
            length: 407_000,
            track_no: Some(2),
        },
        Track {
            uri: "file:///music/m83/saturdays/kim.mp3".into(),
            name: "Kim & Jessie".into(),
            artists: vec!["M83".into()],
            album: "Saturdays = Youth".into(),
            length: 315_000,
            track_no: Some(1),
        },
        Track {
            uri: "file:///music/radiohead/ok/paranoid.mp3".into(),
            name: "Paranoid Android".into(),
            artists: vec!["Radiohead".into()],
            album: "OK Computer".into(),
            length: 383_000,
            track_no: Some(2),
        },
    ]
}

#[test]
fn build_library_groups_by_artist() {
    let lib = Library::from_tracks(make_tracks());
    let names = lib.artist_names();
    assert_eq!(names.len(), 2);
    assert!(names.contains(&&"M83".to_string()));
    assert!(names.contains(&&"Radiohead".to_string()));
}

#[test]
fn artist_albums_returns_correct_albums() {
    let lib = Library::from_tracks(make_tracks());
    let albums = lib.albums_by_artist("M83");
    assert_eq!(albums.len(), 2);
    let album_names: Vec<&str> = albums.iter().map(|a| a.name.as_str()).collect();
    assert!(album_names.contains(&"Hurry Up, We're Dreaming"));
    assert!(album_names.contains(&"Saturdays = Youth"));
}

#[test]
fn album_tracks_returns_sorted_tracks() {
    let lib = Library::from_tracks(make_tracks());
    let albums = lib.albums_by_artist("M83");
    let hurry = albums.iter().find(|a| a.name.contains("Hurry")).unwrap();
    assert_eq!(hurry.tracks.len(), 2);
    assert_eq!(hurry.tracks[0].name, "Midnight City");
    assert_eq!(hurry.tracks[1].name, "Reunion");
}

#[test]
fn all_tracks_returns_everything() {
    let lib = Library::from_tracks(make_tracks());
    assert_eq!(lib.all_tracks().len(), 4);
}

#[test]
fn all_albums_returns_everything() {
    let lib = Library::from_tracks(make_tracks());
    assert_eq!(lib.all_albums().len(), 3);
}

#[test]
fn empty_library() {
    let lib = Library::from_tracks(vec![]);
    assert!(lib.artist_names().is_empty());
    assert!(lib.all_tracks().is_empty());
    assert!(lib.all_albums().is_empty());
}

#[test]
fn search_finds_matching_tracks() {
    let lib = Library::from_tracks(make_tracks());
    let results = lib.search("midnight");
    assert_eq!(results.len(), 1);
    assert_eq!(results[0].name, "Midnight City");
}

#[test]
fn search_is_case_insensitive() {
    let lib = Library::from_tracks(make_tracks());
    let results = lib.search("PARANOID");
    assert_eq!(results.len(), 1);
}

#[test]
fn search_matches_artist_names() {
    let lib = Library::from_tracks(make_tracks());
    let results = lib.search("radiohead");
    assert_eq!(results.len(), 1);
}

#[test]
fn songs_are_ordered_by_lowercased_name() {
    let lib = Library::from_tracks(make_tracks());
    let names: Vec<&str> = lib.all_tracks().iter().map(|t| t.name.as_str()).collect();
    assert_eq!(names, vec!["Kim & Jessie", "Midnight City", "Paranoid Android", "Reunion"]);
}

#[test]
fn albums_are_ordered_by_name() {
    let lib = Library::from_tracks(make_tracks());
    let names: Vec<&str> = lib.all_albums().iter().map(|a| a.name.as_str()).collect();
    assert_eq!(names, vec!["Hurry Up, We're Dreaming", "OK Computer", "Saturdays = Youth"]);
}

#[test]
fn tracks_without_artist_or_number() {
    let lib = Library::from_tracks(vec![
        Track {
            uri: "file:///b.mp3".into(),
            name: "B".into(),
            artists: vec![],
            album: "X".into(),
            length: 1,
            track_no: None,
        },
        Track {
            uri: "file:///a.mp3".into(),
            name: "A".into(),
            artists: vec![],
            album: "X".into(),
            length: 1,
            track_no: Some(3),
        },
    ]);
    assert_eq!(lib.artist_names(), vec![&"Unknown Artist".to_string()]);
    let albums = lib.albums_by_artist("Unknown Artist");
    assert_eq!(albums.len(), 1);
    assert_eq!(albums[0].tracks[0].name, "A");
    assert_eq!(albums[0].tracks[1].name, "B");
    assert!(lib.albums_by_artist("Nobody").is_empty());
    assert!(lib.search("zzz").is_empty());
}

#[test]
fn every_track_is_filed_once() {
    let tracks = make_tracks();
    let lib = Library::from_tracks(tracks.clone());
    let total: usize = lib.all_albums().iter().map(|a| a.tracks.len()).sum();
    assert_eq!(total, tracks.len());
    for t in &tracks {
        let key = t.artists.first().cloned().unwrap_or("Unknown Artist".to_string());
        let albums = lib.albums_by_artist(&key);
        let holding: Vec<_> = albums.iter().filter(|a| a.name == t.album).collect();
        assert_eq!(holding.len(), 1);
        assert_eq!(holding[0].artist, key);
        assert!(holding[0].tracks.iter().any(|u| u.uri == t.uri));
    }
    assert!(lib.albums_by_artist("Nobody").is_empty());
}
