use rustify::library::Library;
use rustify::tui::{App, MainView};
use rustify::types::{PlaybackState, Playlist, RepeatMode, Track};
use rustify::view::{
    artists_line, detail_row, format_time, main_rows, main_title, mode_marks, queue_rows,
    song_row, state_icon,
};

fn track(name: &str, artists: &[&str], album: &str, no: Option<u32>, length: u64) -> Track {
    Track {
        uri: format!("file:///m/{}.mp3", name),
        name: name.into(),
        artists: artists.iter().map(|a| a.to_string()).collect(),
        album: album.into(),
        length,
        track_no: no,
    }
}

#[test]
fn times_are_minutes_and_seconds() {
    assert_eq!(format_time(0), "0:00");
    assert_eq!(format_time(61_999), "1:01");
    assert_eq!(format_time(600_000), "10:00");
    assert_eq!(format_time(3_600_000), "60:00");
}

#[test]
fn row_texts() {
    let t = track("Song", &["A", "B"], "X", Some(3), 125_000);
    assert_eq!(song_row(&t), "Song — A");
    assert_eq!(detail_row(&t), " 3. Song  [2:05]");
    let u = track("Long", &[], "X", Some(12), 5_000);
    assert_eq!(song_row(&u), "Long — Unknown");
    assert_eq!(detail_row(&u), "12. Long  [0:05]");
    let v = track("Bare", &[], "X", None, 0);
    assert_eq!(detail_row(&v), "Bare  [0:00]");
    assert_eq!(artists_line(&t), "A, B");
    assert_eq!(artists_line(&u), "Unknown");
}

#[test]
fn now_playing_marks() {
    assert_eq!(state_icon(Some(PlaybackState::Playing)), ">>");
    assert_eq!(state_icon(Some(PlaybackState::Paused)), "||");
    assert_eq!(state_icon(None), "--");
    assert_eq!(mode_marks(true, RepeatMode::One), "[S] [R1] ");
    assert_eq!(mode_marks(false, RepeatMode::All), "[R] ");
    assert_eq!(mode_marks(false, RepeatMode::Off), "");
    assert_eq!(queue_rows(&vec!["x".to_string(), "y".to_string()]), vec!["  1. x", "  2. y"]);
}

#[test]
fn panel_titles_and_rows() {
    let mut app = App::new();
    assert_eq!(main_title(&app), " Artists ");
    assert!(main_rows(&app).is_none());
    app.apply_scan_complete(Library::from_tracks(vec![
        track("One", &["Alpha"], "First", Some(1), 61_000),
        track("Two", &["Beta"], "Second", None, 1_000),
    ]));
    assert_eq!(main_rows(&app).unwrap(), vec!["Alpha", "Beta"]);
    app.main_view = MainView::Albums;
    assert_eq!(main_title(&app), " All Albums ");
    assert_eq!(main_rows(&app).unwrap(), vec!["First — Alpha", "Second — Beta"]);
    app.main_view = MainView::Songs;
    assert_eq!(main_rows(&app).unwrap(), vec!["One — Alpha", "Two — Beta"]);
    app.main_view = MainView::AlbumDetail;
    app.selected_album_index = Some(0);
    assert_eq!(main_title(&app), " Tracks ");
    assert_eq!(main_rows(&app).unwrap(), vec![" 1. One  [1:01]"]);
    app.selected_album_index = Some(7);
    assert!(main_rows(&app).unwrap().is_empty());
    app.main_view = MainView::Playlists;
    app.playlists = vec![Playlist { uri: "file:///p.m3u".into(), name: "p".into(), track_count: 12 }];
    assert_eq!(main_rows(&app).unwrap(), vec!["p (12 tracks)"]);
}

fn make_app_with_library() -> App {
    let tracks = vec![
        Track {
            uri: "file:///music/a.mp3".into(),
            name: "Alpha".into(),
            artists: vec!["Artist A".into()],
            album: "Album One".into(),
            length: 200_000,
            track_no: Some(1),
        },
        Track {
            uri: "file:///music/b.mp3".into(),
            name: "Beta".into(),
            artists: vec!["Artist B".into()],
            album: "Album Two".into(),
            length: 300_000,
            track_no: Some(1),
        },
    ];
    let mut app = App::new();
    app.library = Some(Library::from_tracks(tracks));
    app.artist_list_state.select(Some(0));
    app
}

#[test]
fn artists_view_shows_artist_names() {
    let mut app = make_app_with_library();
    app.main_view = MainView::Artists;
    let content = main_rows(&app).unwrap().join("\n");
    assert!(content.contains("Artist A"));
    assert!(content.contains("Artist B"));
}

#[test]
fn songs_view_shows_track_names() {
    let mut app = make_app_with_library();
    app.main_view = MainView::Songs;
    let content = main_rows(&app).unwrap().join("\n");
    assert!(content.contains("Alpha"));
    assert!(content.contains("Beta"));
}

#[test]
fn sidebar_shows_all_nav_items() {
    let app = App::new();
    let content = app.nav_items().join("\n");
    assert!(content.contains("Artists"));
    assert!(content.contains("Albums"));
    assert!(content.contains("Songs"));
    assert!(content.contains("Playlists"));
}
