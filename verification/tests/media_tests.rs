use rustify::art::{choose_picture, sidecar_order, PictureInfo};
use rustify::lyrics::{embedded_lyrics, lrc_lines, lyrics_from, parse_lrc_line, Lyrics};
use rustify::metadata::{replay_gain_text, track_from_tags, TagInfo};
use rustify::playlist::{is_playlist_path, parse_m3u, parse_m3u_content, playlist_info};
use rustify::scanner::{audio_uris, listing_uris};

fn strings(list: &[&str]) -> Vec<String> {
    list.iter().map(|s| s.to_string()).collect()
}

#[test]
fn parse_simple_m3u_absolute_paths() {
    let uris = parse_m3u("/tmp/lists/test.m3u", "/music/song1.mp3\n/music/song2.flac\n").unwrap();
    assert_eq!(uris.len(), 2);
    assert!(uris[0].starts_with("file://"));
    assert!(uris[0].ends_with("/music/song1.mp3"));
    assert!(uris[1].ends_with("/music/song2.flac"));
}

#[test]
fn parse_m3u_relative_paths() {
    let uris = parse_m3u("/tmp/lists/test.m3u", "songs/track.mp3\n../other/track.flac\n").unwrap();
    assert_eq!(uris.len(), 2);
    assert!(uris[0].contains("songs"));
    assert!(uris[1].contains("other"));
    assert_eq!(uris[0], "file:///tmp/lists/songs/track.mp3");
}

#[test]
fn parse_extended_m3u_skips_directives() {
    let uris = parse_m3u(
        "/tmp/lists/test.m3u",
        "#EXTM3U\n#EXTINF:123,Artist - Title\n/music/song.mp3\n",
    )
    .unwrap();
    assert_eq!(uris.len(), 1);
    assert!(uris[0].starts_with("file://"));
    assert!(uris[0].ends_with("/music/song.mp3"));
}

#[test]
fn parse_m3u_skips_blank_lines_and_comments() {
    let uris = parse_m3u("/tmp/lists/test.m3u", "\n# comment\n\n/music/song.mp3\n\n").unwrap();
    assert_eq!(uris.len(), 1);
}

#[test]
fn parse_m3u_filters_unsupported_extensions() {
    let uris = parse_m3u(
        "/tmp/lists/test.m3u",
        "/music/song.mp3\n/music/image.png\n/music/doc.txt\n",
    )
    .unwrap();
    assert_eq!(uris.len(), 1);
    assert!(uris[0].ends_with(".mp3"));
}

#[test]
fn parse_m3u_case_insensitive_extensions() {
    let uris = parse_m3u("/tmp/lists/test.m3u", "/music/song.MP3\n/music/song.Flac\n").unwrap();
    assert_eq!(uris.len(), 2);
}

#[test]
fn parse_empty_m3u() {
    let uris = parse_m3u("/tmp/lists/empty.m3u", "").unwrap();
    assert!(uris.is_empty());
}

#[test]
fn m3u_lines_are_trimmed_and_need_a_parent() {
    let uris = parse_m3u_content("  /a/b.ogg \r\n\t#x.mp3\nc.wav", "/base");
    assert_eq!(uris, strings(&["file:///a/b.ogg", "file:///base/c.wav"]));
    assert!(parse_m3u("/", "/a.mp3").is_err());
}

#[test]
fn find_playlists_in_directory() {
    let files = [
        ("/tmp/pl/chill.m3u", Some("/music/a.mp3\n/music/b.flac\n")),
        ("/tmp/pl/rock.m3u", Some("/music/c.ogg\n")),
        ("/tmp/pl/readme.txt", None),
    ];
    let playlists: Vec<_> = files
        .iter()
        .filter(|(p, _)| is_playlist_path(p))
        .map(|(p, c)| playlist_info(p, *c))
        .collect();
    assert_eq!(playlists.len(), 2);
    let names: Vec<&str> = playlists.iter().map(|p| p.name.as_str()).collect();
    assert!(names.contains(&"chill"));
    assert!(names.contains(&"rock"));
    let chill = playlists.iter().find(|p| p.name == "chill").unwrap();
    assert_eq!(chill.track_count, 2);
    assert_eq!(chill.uri, "file:///tmp/pl/chill.m3u");
    assert!(!is_playlist_path("/tmp/pl/x.M3U"));
    assert_eq!(playlist_info("/tmp/pl/gone.m3u", None).track_count, 0);
}

#[test]
fn scan_finds_audio_files() {
    let uris = audio_uris(&strings(&["/d/song.mp3", "/d/track.flac", "/d/sound.ogg", "/d/clip.wav"]));
    assert_eq!(uris.len(), 4);
}

#[test]
fn scan_ignores_non_audio_files() {
    let uris = audio_uris(&strings(&["/d/song.mp3", "/d/readme.txt", "/d/image.png", "/d/cover.jpg"]));
    assert_eq!(uris.len(), 1);
    assert!(uris[0].ends_with(".mp3"));
}

#[test]
fn scan_recurses_into_subdirectories() {
    let uris = audio_uris(&strings(&[
        "/d/artist1/album1/track1.mp3",
        "/d/artist1/album2/track2.flac",
        "/d/artist2/track3.ogg",
    ]));
    assert_eq!(uris.len(), 3);
}

#[test]
fn scan_returns_sorted_uris() {
    let uris = audio_uris(&strings(&["/d/c.mp3", "/d/a.mp3", "/d/b.mp3"]));
    assert!(uris[0] < uris[1]);
    assert!(uris[1] < uris[2]);
}

#[test]
fn scan_case_insensitive_extensions() {
    let uris = audio_uris(&strings(&["/d/LOUD.MP3", "/d/quiet.Flac"]));
    assert_eq!(uris.len(), 2);
}

#[test]
fn scan_returns_file_uris() {
    let uris = audio_uris(&strings(&["/d/song.mp3"]));
    assert!(uris[0].starts_with("file://"));
}

#[test]
fn scan_empty_directory() {
    let uris = audio_uris(&Vec::new());
    assert!(uris.is_empty());
}

#[test]
fn browse_lists_files_and_dirs() {
    let entries = vec![
        ("/d/song.mp3".to_string(), false),
        ("/d/subdir".to_string(), true),
        ("/d/readme.txt".to_string(), false),
    ];
    let listed = listing_uris(&entries);
    assert_eq!(listed.len(), 2);
    assert_eq!(listed, strings(&["file:///d/song.mp3", "file:///d/subdir"]));
}

#[test]
fn browse_does_not_recurse() {
    let entries = vec![("/d/top.mp3".to_string(), false), ("/d/sub".to_string(), true)];
    assert_eq!(listing_uris(&entries).len(), 2);
}

fn parse_lrc_with_seconds(content: &str) -> Lyrics {
    let mut timed = Vec::new();
    for l in lrc_lines(content) {
        if let Ok(secs) = l.seconds.parse::<f64>() {
            timed.push((l.minutes * 60_000 + (secs * 1000.0) as u64, l.text));
        }
    }
    lyrics_from(content, timed)
}

#[test]
fn parse_lrc_synced() {
    let content = "[00:12.50]First line\n[00:15.00]Second line\n";
    match parse_lrc_with_seconds(content) {
        Lyrics::Synced(lines) => {
            assert_eq!(lines.len(), 2);
            assert_eq!(lines[0].0, 12500);
            assert_eq!(lines[0].1, "First line");
            assert_eq!(lines[1].0, 15000);
        }
        _ => panic!("Expected synced lyrics"),
    }
}

#[test]
fn parse_lrc_empty_returns_unsynced() {
    let content = "Just plain text\nNo timestamps here";
    match parse_lrc_with_seconds(content) {
        Lyrics::Unsynced(_) => {}
        _ => panic!("Expected unsynced lyrics"),
    }
}

#[test]
fn lrc_line_structure() {
    let l = parse_lrc_line("[01:02.50]Hello").unwrap();
    assert_eq!(l.minutes, 1);
    assert_eq!(l.seconds, "02.50");
    assert_eq!(l.text, "Hello");
    assert!(parse_lrc_line("[ar:Someone]x").is_none());
    assert!(parse_lrc_line("[1:2:3]x").is_none());
    assert!(parse_lrc_line("no brackets").is_none());
    assert!(parse_lrc_line("x[00:01]").is_none());
    assert_eq!(parse_lrc_line("[+3:00]").unwrap().minutes, 3);
    assert!(parse_lrc_line("[99999999999999999999:00]x").is_none());
    match parse_lrc_with_seconds("[00:05]b\n[00:01]a\n[00:05]c") {
        Lyrics::Synced(lines) => {
            let texts: Vec<&str> = lines.iter().map(|(_, t)| t.as_str()).collect();
            assert_eq!(texts, vec!["a", "b", "c"]);
        }
        _ => panic!("Expected synced lyrics"),
    }
    assert!(embedded_lyrics(Some("  \n".into())).is_none());
    assert!(matches!(embedded_lyrics(Some("la la".into())), Some(Lyrics::Unsynced(_))));
    assert!(embedded_lyrics(None).is_none());
}

fn parse_replay_gain_value(val: &str) -> Option<f32> {
    replay_gain_text(val).parse::<f32>().ok()
}

#[test]
fn parse_replay_gain_values() {
    assert_eq!(parse_replay_gain_value("-6.5 dB"), Some(-6.5));
    assert_eq!(parse_replay_gain_value("+3.2 dB"), Some(3.2));
    assert_eq!(parse_replay_gain_value("-6.5dB"), Some(-6.5));
    assert_eq!(parse_replay_gain_value("not a number"), None);
}

#[test]
fn replay_gain_text_strips_units() {
    assert_eq!(replay_gain_text("  -1.25 dB dB "), "-1.25");
    assert_eq!(replay_gain_text("4dBdB"), "4");
    assert_eq!(replay_gain_text("dB"), "");
}

#[test]
fn track_from_tags_falls_back_to_filename() {
    let t = track_from_tags("/music/x/song name.wav", None, 1000);
    assert_eq!(t.name, "song name");
    assert!(t.artists.is_empty());
    assert!(t.album.is_empty());
    assert_eq!(t.uri, "file:///music/x/song name.wav");
    assert_eq!(t.length, 1000);
    assert_eq!(t.track_no, None);
    let tags = TagInfo {
        title: Some("Title".into()),
        artist: Some("Artist".into()),
        album: None,
        track: Some(4),
    };
    let t = track_from_tags("/m/a.mp3", Some(tags), 5);
    assert_eq!(t.name, "Title");
    assert_eq!(t.artists, vec!["Artist".to_string()]);
    assert_eq!(t.track_no, Some(4));
    assert_eq!(track_from_tags("/", None, 0).name, "Unknown");
}

#[test]
fn picture_choice_prefers_front_cover() {
    let pics = vec![
        PictureInfo { front_cover: false, data: vec![1] },
        PictureInfo { front_cover: true, data: vec![2] },
        PictureInfo { front_cover: true, data: vec![3] },
    ];
    assert_eq!(choose_picture(pics), Some(vec![2]));
    assert_eq!(choose_picture(vec![PictureInfo { front_cover: false, data: vec![9] }]), Some(vec![9]));
    assert_eq!(choose_picture(vec![]), None);
}

#[test]
fn sidecar_files_in_order_of_preference() {
    let names = strings(&["song.mp3", "Folder.JPG", "cover.png", "COVER.jpg", "album.png"]);
    assert_eq!(sidecar_order(&names), vec![3, 2, 1, 4]);
    assert!(sidecar_order(&strings(&["song.mp3"])).is_empty());
}

#[test]
fn saved_queue_reads_back() {
    let mut app = rustify::tui::App::new();
    app.queue.track_uris = strings(&["file:///music/a.mp3", "file:///music/sub dir/b.FLAC"]);
    let text = app.generate_m3u_content();
    assert_eq!(parse_m3u_content(&text, "/anywhere"), app.queue.track_uris);
}
