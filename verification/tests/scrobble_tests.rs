use rustify::scrobble::{escape_json, listen_body, now_playing_body, ScrobbleRequest, Scrobbler};
use rustify::types::Track;

fn make_track(length_ms: u64) -> Track {
    Track {
        uri: "file:///test.mp3".into(),
        name: "Test".into(),
        artists: vec!["Artist".into()],
        album: "Album".into(),
        length: length_ms,
        track_no: None,
    }
}

#[test]
fn scrobble_eligible_at_50_percent() {
    let mut s = Scrobbler::new(String::new());
    s.current_track = Some(make_track(200_000));
    s.accumulated_ms = 100_001;
    assert!(s.is_scrobble_eligible(&make_track(200_000)));
}

#[test]
fn scrobble_eligible_at_4_minutes() {
    let mut s = Scrobbler::new(String::new());
    s.accumulated_ms = 240_001;
    assert!(s.is_scrobble_eligible(&make_track(600_000)));
}

#[test]
fn not_eligible_short_play() {
    let mut s = Scrobbler::new(String::new());
    s.accumulated_ms = 30_000;
    assert!(!s.is_scrobble_eligible(&make_track(200_000)));
}

#[test]
fn not_eligible_short_track() {
    let mut s = Scrobbler::new(String::new());
    s.accumulated_ms = 25_000;
    assert!(!s.is_scrobble_eligible(&make_track(25_000)));
}

#[test]
fn disabled_with_empty_token() {
    let s = Scrobbler::new(String::new());
    assert!(!s.is_enabled());
}

#[test]
fn enabled_with_token() {
    let s = Scrobbler::new("my-token".into());
    assert!(s.is_enabled());
}

#[test]
fn play_time_accumulates_and_scrobbles_once() {
    let mut s = Scrobbler::new("tok".into());
    let reqs = s.on_track_changed(&make_track(60_000));
    assert_eq!(reqs.len(), 1);
    assert!(matches!(reqs[0], ScrobbleRequest::NowPlaying(_)));
    assert!(s.on_position_update(1000).is_empty());
    s.on_state_changed(true);
    let mut sent = 0;
    let mut pos = 0;
    while pos < 40_000 {
        pos += 1000;
        sent += s.on_position_update(pos).len();
    }
    assert_eq!(sent, 1);
    assert_eq!(s.accumulated_ms, 40_000);
    assert!(s.on_position_update(50_000).is_empty());
    assert_eq!(s.accumulated_ms, 40_000);
}

#[test]
fn seeks_do_not_count_as_play_time() {
    let mut s = Scrobbler::new("tok".into());
    s.on_track_changed(&make_track(600_000));
    s.on_state_changed(true);
    s.on_position_update(1500);
    s.on_position_update(100_000);
    s.on_position_update(90_000);
    assert_eq!(s.accumulated_ms, 1500);
}

#[test]
fn track_change_scrobbles_the_previous_track_when_due() {
    let mut s = Scrobbler::new(String::new());
    s.on_track_changed(&make_track(60_000));
    s.accumulated_ms = 30_000;
    let reqs = s.on_track_changed(&make_track(90_000));
    assert_eq!(reqs.len(), 1);
    match &reqs[0] {
        ScrobbleRequest::Listen(t) => assert_eq!(t.length, 60_000),
        other => panic!("unexpected {:?}", other),
    }
    assert_eq!(s.accumulated_ms, 0);
}

#[test]
fn json_bodies() {
    assert_eq!(escape_json("a\"b\\c\nd"), "a\\\"b\\\\c\\nd");
    let t = make_track(1);
    assert_eq!(
        now_playing_body(&t),
        r#"{"listen_type":"playing_now","payload":[{"track_metadata":{"artist_name":"Artist","track_name":"Test","release_name":"Album"}}]}"#
    );
    let mut u = make_track(1);
    u.artists.clear();
    assert_eq!(
        listen_body(&u, 1700000000),
        r#"{"listen_type":"single","payload":[{"listened_at":1700000000,"track_metadata":{"artist_name":"Unknown","track_name":"Test","release_name":"Album"}}]}"#
    );
    assert_eq!(Scrobbler::new("abc".into()).authorization(), "Token abc");
}

#[test]
fn eligibility_boundaries() {
    let mut s = Scrobbler::new(String::new());
    s.accumulated_ms = 240_000;
    assert!(!s.is_scrobble_eligible(&make_track(30_000)));
    assert!(s.is_scrobble_eligible(&make_track(30_001)));
    s.accumulated_ms = 50_000;
    assert!(!s.is_scrobble_eligible(&make_track(100_001)));
    assert!(s.is_scrobble_eligible(&make_track(100_000)));
}

#[test]
fn without_token_nothing_is_sent() {
    let mut s = Scrobbler::new(String::new());
    let mut sent = s.on_track_changed(&make_track(200_000));
    s.on_state_changed(true);
    for p in 0..400u64 {
        sent.extend(s.on_position_update(p * 1000));
    }
    sent.extend(s.on_track_changed(&make_track(100_000)));
    assert!(sent.is_empty());
    assert!(!s.is_enabled());
}

#[test]
fn token_keeps_scrobbler_enabled_and_one_listen_per_play() {
    let mut s = Scrobbler::new("tok".into());
    s.on_track_changed(&make_track(200_000));
    s.on_state_changed(true);
    let mut listens = 0;
    for p in 0..300u64 {
        for r in s.on_position_update(p * 1000) {
            if matches!(r, ScrobbleRequest::Listen(_)) {
                listens += 1;
            }
        }
    }
    for r in s.on_track_changed(&make_track(100_000)) {
        if matches!(r, ScrobbleRequest::Listen(_)) {
            listens += 1;
        }
    }
    assert_eq!(listens, 1);
    assert!(s.is_enabled());
}
