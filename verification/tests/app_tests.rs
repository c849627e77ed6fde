use rustify::library::Library;
use rustify::lyrics::Lyrics;
use rustify::tui::{
    App, Focus, KeyCode, KeyEvent, KeyEventKind, KeyModifiers, MainView, PlayerAction,
    VisualizerMode,
};
use rustify::types::{PlaybackState, PlayerCommand, PlayerEvent, RepeatMode, Track};

fn make_key(code: KeyCode) -> KeyEvent {
    KeyEvent { code, modifiers: KeyModifiers::none(), kind: KeyEventKind::Press }
}

fn make_shift_key(code: KeyCode) -> KeyEvent {
    KeyEvent { code, modifiers: KeyModifiers::shift(), kind: KeyEventKind::Press }
}

fn make_app() -> App {
    App::new()
}

#[test]
fn initial_state() {
    let app = make_app();
    assert!(!app.should_quit);
    assert_eq!(app.focus, Focus::Sidebar);
    assert_eq!(app.sidebar_nav_index, 0);
}

#[test]
fn q_sets_should_quit() {
    let mut app = make_app();
    let _ = app.handle_key(make_key(KeyCode::Char('q')));
    assert!(app.should_quit);
}

#[test]
fn tab_cycles_focus() {
    let mut app = make_app();
    assert_eq!(app.focus, Focus::Sidebar);
    app.handle_key(make_key(KeyCode::Tab));
    assert_eq!(app.focus, Focus::Main);
    app.handle_key(make_key(KeyCode::Tab));
    assert_eq!(app.focus, Focus::Sidebar);
}

#[test]
fn number_keys_switch_sidebar_nav() {
    let mut app = make_app();
    app.handle_key(make_key(KeyCode::Char('2')));
    assert_eq!(app.sidebar_nav_index, 1);
    assert_eq!(app.main_view, MainView::Albums);
    app.handle_key(make_key(KeyCode::Char('3')));
    assert_eq!(app.sidebar_nav_index, 2);
    assert_eq!(app.main_view, MainView::Songs);
}

#[test]
fn j_k_navigates_sidebar_nav_when_focused() {
    let mut app = make_app();
    assert_eq!(app.sidebar_nav_index, 0);
    app.handle_key(make_key(KeyCode::Char('j')));
    assert_eq!(app.sidebar_nav_index, 1);
    app.handle_key(make_key(KeyCode::Char('k')));
    assert_eq!(app.sidebar_nav_index, 0);
    app.handle_key(make_key(KeyCode::Char('k')));
    assert_eq!(app.sidebar_nav_index, 0);
}

#[test]
fn enter_on_sidebar_nav_switches_view_and_focus() {
    let mut app = make_app();
    app.sidebar_nav_index = 2;
    app.handle_key(make_key(KeyCode::Enter));
    assert_eq!(app.main_view, MainView::Songs);
    assert_eq!(app.focus, Focus::Main);
}

#[test]
fn space_returns_play_pause_action() {
    let mut app = make_app();
    let action = app.handle_key(make_key(KeyCode::Char(' ')));
    assert!(matches!(action, Some(PlayerAction::PlayPause)));
}

#[test]
fn player_state_change_updates_now_playing() {
    let mut app = make_app();
    app.handle_player_event(PlayerEvent::StateChanged(PlaybackState::Playing));
    assert_eq!(app.now_playing.state, Some(PlaybackState::Playing));
}

#[test]
fn player_track_change_updates_now_playing() {
    let mut app = make_app();
    let track = Track {
        uri: "file:///test.mp3".into(),
        name: "Test".into(),
        artists: vec!["Artist".into()],
        album: "Album".into(),
        length: 100_000,
        track_no: None,
    };
    app.handle_player_event(PlayerEvent::TrackChanged(track));
    assert_eq!(app.now_playing.track.as_ref().unwrap().name, "Test");
}

#[test]
fn player_position_update_updates_now_playing() {
    let mut app = make_app();
    app.handle_player_event(PlayerEvent::PositionUpdate(42_000));
    assert_eq!(app.now_playing.position_ms, 42_000);
}

#[test]
fn player_error_sets_status_message() {
    let mut app = make_app();
    app.handle_player_event(PlayerEvent::Error("decode failed".into()));
    assert!(app.status.is_some());
    assert!(app.status.as_ref().unwrap().text.contains("decode failed"));
}

#[test]
fn mouse_click_in_sidebar_area_sets_focus() {
    let mut app = make_app();
    app.focus = Focus::Main;
    app.handle_mouse_click(5, 3, 80, 24);
    assert_eq!(app.focus, Focus::Sidebar);
}

#[test]
fn mouse_click_in_main_area_sets_focus() {
    let mut app = make_app();
    app.focus = Focus::Sidebar;
    app.handle_mouse_click(30, 3, 80, 24);
    assert_eq!(app.focus, Focus::Main);
}

#[test]
fn add_to_queue() {
    let mut app = make_app();
    app.add_to_queue("file:///music/test.mp3".into(), "Test Song".into());
    assert_eq!(app.queue.track_uris.len(), 1);
    assert_eq!(app.queue.track_names.len(), 1);
    assert_eq!(app.queue.track_names[0], "Test Song");
}

#[test]
fn remove_from_queue() {
    let mut app = make_app();
    app.add_to_queue("file:///a.mp3".into(), "A".into());
    app.add_to_queue("file:///b.mp3".into(), "B".into());
    app.add_to_queue("file:///c.mp3".into(), "C".into());
    app.remove_from_queue(1);
    assert_eq!(app.queue.track_uris.len(), 2);
    assert_eq!(app.queue.track_names[1], "C");
}

#[test]
fn reorder_queue_down() {
    let mut app = make_app();
    app.add_to_queue("file:///a.mp3".into(), "A".into());
    app.add_to_queue("file:///b.mp3".into(), "B".into());
    app.add_to_queue("file:///c.mp3".into(), "C".into());
    app.reorder_queue(0, 1);
    assert_eq!(app.queue.track_names[0], "B");
    assert_eq!(app.queue.track_names[1], "A");
}

#[test]
fn save_queue_as_m3u_generates_content() {
    let mut app = make_app();
    app.queue.track_uris = vec!["file:///music/a.mp3".into(), "file:///music/b.flac".into()];
    let content = app.generate_m3u_content();
    assert!(content.contains("#EXTM3U"));
    assert!(content.contains("/music/a.mp3"));
    assert!(content.contains("/music/b.flac"));
}

#[test]
fn mode_toggle() {
    assert_eq!(VisualizerMode::Spectrum.toggle(), VisualizerMode::Waveform);
    assert_eq!(VisualizerMode::Waveform.toggle(), VisualizerMode::Spectrum);
}

fn track(name: &str, artist: &str, album: &str, no: u32) -> Track {
    Track {
        uri: format!("file:///m/{}.mp3", name),
        name: name.into(),
        artists: vec![artist.into()],
        album: album.into(),
        length: 200_000,
        track_no: Some(no),
    }
}

fn app_with_library() -> App {
    let mut app = make_app();
    app.apply_scan_complete(Library::from_tracks(vec![
        track("One", "Alpha", "First", 1),
        track("Two", "Alpha", "First", 2),
        track("Three", "Beta", "Second", 1),
    ]));
    app
}

#[test]
fn scan_complete_selects_first_artist() {
    let app = app_with_library();
    assert!(app.library.is_some());
    assert!(!app.scanning);
    assert_eq!(app.artist_list_state.selected(), Some(0));
}

#[test]
fn drill_down_from_artist_to_album_and_play() {
    let mut app = app_with_library();
    app.focus = Focus::Main;
    assert!(app.handle_key(make_key(KeyCode::Enter)).is_none());
    assert_eq!(app.main_view, MainView::Albums);
    assert_eq!(app.selected_artist.as_deref(), Some("Alpha"));
    assert!(app.handle_key(make_key(KeyCode::Enter)).is_none());
    assert_eq!(app.main_view, MainView::AlbumDetail);
    assert_eq!(app.selected_album_index, Some(0));
    match app.handle_key(make_key(KeyCode::Enter)) {
        Some(PlayerAction::LoadTrackUris(uris)) => {
            assert_eq!(uris, vec!["file:///m/One.mp3".to_string(), "file:///m/Two.mp3".to_string()])
        }
        other => panic!("unexpected {:?}", other),
    }
    app.handle_key(make_key(KeyCode::Char('j')));
    app.handle_key(make_key(KeyCode::Char('a')));
    assert_eq!(app.queue.track_names, vec!["Two".to_string()]);
    app.handle_key(make_key(KeyCode::Esc));
    assert_eq!(app.main_view, MainView::Albums);
}

#[test]
fn songs_view_plays_selected_track() {
    let mut app = app_with_library();
    app.handle_key(make_key(KeyCode::Char('3')));
    app.focus = Focus::Main;
    app.song_list_state.select(Some(1));
    match app.handle_key(make_key(KeyCode::Enter)) {
        Some(PlayerAction::PlayTrackUri(u)) => assert_eq!(u, "file:///m/Three.mp3"),
        other => panic!("unexpected {:?}", other),
    }
    app.handle_key(make_key(KeyCode::Char('k')));
    app.handle_key(make_key(KeyCode::Char('k')));
    assert_eq!(app.song_list_state.selected(), Some(0));
}

#[test]
fn search_overlay_edits_query() {
    let mut app = make_app();
    app.handle_key(make_key(KeyCode::Char('/')));
    assert!(app.search.active);
    assert_eq!(app.focus, Focus::Search);
    app.handle_key(make_key(KeyCode::Char('n')));
    app.handle_key(make_key(KeyCode::Char('o')));
    app.handle_key(make_key(KeyCode::Backspace));
    assert_eq!(app.search.query, "n");
    app.handle_key(make_key(KeyCode::Enter));
    assert!(!app.search.active);
    assert_eq!(app.focus, Focus::Main);
}

#[test]
fn volume_keys_saturate() {
    let mut app = make_app();
    app.now_playing.volume = 98;
    app.handle_key(make_key(KeyCode::Char('+')));
    assert_eq!(app.now_playing.volume, 100);
    app.now_playing.volume = 3;
    app.handle_key(make_key(KeyCode::Char('-')));
    assert_eq!(app.now_playing.volume, 0);
    let release = KeyEvent {
        code: KeyCode::Char('q'),
        modifiers: KeyModifiers::none(),
        kind: KeyEventKind::Release,
    };
    assert!(app.handle_key(release).is_none());
    assert!(!app.should_quit);
}

#[test]
fn seek_keys_and_player_commands() {
    let mut app = make_app();
    assert!(matches!(app.handle_key(make_key(KeyCode::Left)), Some(PlayerAction::Seek(-5000))));
    app.now_playing.track = Some(track("One", "Alpha", "First", 1));
    app.now_playing.position_ms = 3000;
    let cmds = app.player_commands(PlayerAction::Seek(-5000));
    assert!(matches!(cmds[0], PlayerCommand::Seek(0)));
    assert_eq!(app.now_playing.position_ms, 0);
    app.now_playing.position_ms = 199_000;
    let cmds = app.player_commands(PlayerAction::Seek(5000));
    assert!(matches!(cmds[0], PlayerCommand::Seek(200_000)));
    app.now_playing.state = Some(PlaybackState::Playing);
    assert!(matches!(app.player_commands(PlayerAction::PlayPause)[0], PlayerCommand::Pause));
    app.now_playing.repeat = RepeatMode::One;
    assert!(matches!(
        app.player_commands(PlayerAction::CycleRepeat)[0],
        PlayerCommand::SetRepeat(RepeatMode::Off)
    ));
    let cmds = app.player_commands(PlayerAction::PlayTrackUri("file:///x.mp3".into()));
    assert_eq!(cmds.len(), 2);
    assert!(matches!(cmds[1], PlayerCommand::Play));
}

#[test]
fn ticks_expire_status() {
    let mut app = make_app();
    app.set_status("hello".into());
    for _ in 0..19 {
        app.handle_tick();
    }
    assert!(app.status.is_some());
    app.handle_tick();
    assert!(app.status.is_none());
    assert_eq!(app.tick_count, 20);
}

#[test]
fn queue_edges_and_art() {
    let mut app = make_app();
    app.add_to_queue("file:///a.mp3".into(), "A".into());
    app.add_to_queue("file:///b.mp3".into(), "B".into());
    app.queue.list_state.select(Some(1));
    app.remove_from_queue(1);
    assert_eq!(app.queue.list_state.selected(), Some(0));
    app.remove_from_queue(5);
    app.reorder_queue(0, 9);
    assert_eq!(app.queue_uris(), vec!["file:///a.mp3".to_string()]);
    app.handle_player_event(PlayerEvent::TrackChanged(track("One", "Alpha", "First", 1)));
    assert_eq!(app.art.current_uri.as_deref(), Some("file:///m/One.mp3"));
    app.apply_art_loaded("file:///other.mp3".into(), Some(vec![1]));
    assert!(!app.art.has_art);
    app.apply_art_loaded("file:///m/One.mp3".into(), Some(vec![1, 2]));
    assert!(app.art.has_art);
    assert_eq!(app.art.image_bytes, Some(vec![1, 2]));
    assert_eq!(app.nav_items(), &["Artists", "Albums", "Songs", "Playlists"]);
    app.handle_mouse_click(2, 2, 80, 24);
    assert_eq!(app.main_view, MainView::Albums);
    assert_eq!(app.sidebar_nav_index, 1);
}

#[test]
fn visualizer_and_lyrics_toggles() {
    let mut app = make_app();
    assert_eq!(app.visualizer_mode, VisualizerMode::Spectrum);
    app.handle_key(make_key(KeyCode::Char('V')));
    assert_eq!(app.visualizer_mode, VisualizerMode::Waveform);
    app.handle_key(make_key(KeyCode::Char('L')));
    assert!(app.lyrics.active);
    app.handle_key(make_key(KeyCode::Char('/')));
    app.handle_key(make_key(KeyCode::Char('L')));
    assert!(app.lyrics.active);
    assert_eq!(app.search.query, "L");
}

#[test]
fn synced_lyrics_follow_position() {
    let mut app = make_app();
    app.handle_player_event(PlayerEvent::TrackChanged(track("One", "Alpha", "First", 1)));
    app.apply_lyrics_loaded("file:///elsewhere.mp3".into(), Some(Lyrics::Unsynced("x".into())));
    assert!(app.lyrics.lyrics.is_none());
    let lines = vec![(1000, "a".to_string()), (5000, "b".to_string()), (9000, "c".to_string())];
    app.apply_lyrics_loaded("file:///m/One.mp3".into(), Some(Lyrics::Synced(lines)));
    app.handle_player_event(PlayerEvent::PositionUpdate(500));
    assert_eq!(app.lyrics.current_line, 0);
    app.handle_player_event(PlayerEvent::PositionUpdate(5000));
    assert_eq!(app.lyrics.current_line, 1);
    app.handle_player_event(PlayerEvent::PositionUpdate(20_000));
    assert_eq!(app.lyrics.current_line, 2);
    app.handle_player_event(PlayerEvent::TrackChanged(track("Two", "Alpha", "First", 2)));
    assert!(app.lyrics.lyrics.is_none());
    assert_eq!(app.lyrics.current_line, 0);
}

#[test]
fn reordering_twice_restores_the_queue() {
    let mut app = make_app();
    app.add_to_queue("file:///a.mp3".into(), "A".into());
    app.add_to_queue("file:///b.mp3".into(), "B".into());
    app.add_to_queue("file:///c.mp3".into(), "C".into());
    app.reorder_queue(0, 2);
    assert_eq!(app.queue.track_names, vec!["C", "B", "A"]);
    app.reorder_queue(0, 2);
    assert_eq!(app.queue.track_names, vec!["A", "B", "C"]);
    assert_eq!(app.queue_uris(), vec!["file:///a.mp3", "file:///b.mp3", "file:///c.mp3"]);
}

#[test]
fn shift_arrows_seek_thirty_seconds() {
    let mut app = make_app();
    assert!(matches!(app.handle_key(make_shift_key(KeyCode::Right)), Some(PlayerAction::Seek(30000))));
    assert!(matches!(app.handle_key(make_shift_key(KeyCode::Left)), Some(PlayerAction::Seek(-30000))));
    assert!(matches!(app.handle_key(make_key(KeyCode::Right)), Some(PlayerAction::Seek(5000))));
    assert!(matches!(app.handle_key(make_key(KeyCode::Left)), Some(PlayerAction::Seek(-5000))));
    let ctrl = KeyEvent {
        code: KeyCode::Right,
        modifiers: KeyModifiers { bits: 2 },
        kind: KeyEventKind::Press,
    };
    assert!(matches!(app.handle_key(ctrl), Some(PlayerAction::Seek(5000))));
    assert!(matches!(app.handle_key(make_key(KeyCode::Char('h'))), Some(PlayerAction::Seek(-5000))));
    assert!(matches!(app.handle_key(make_key(KeyCode::Char('l'))), Some(PlayerAction::Seek(5000))));
    assert!(matches!(
        app.handle_key(make_shift_key(KeyCode::Char('H'))),
        Some(PlayerAction::Seek(-30000))
    ));
}
