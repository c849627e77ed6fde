//! The text the front end shows: panel titles, list rows, times, the now-playing
//! labels. Drawing it on the terminal is left to the caller.
use vstd::prelude::*;
use crate::library::{Album, AlbumView, Library};
use crate::text::{decimal, push_char, push_decimal};
use crate::tui::{shown_albums, App, MainView};
use crate::types::{strings_view, tracks_view, PlaybackState, Playlist, RepeatMode, Track, TrackView};

verus! {

/// `n` in decimal, at least two digits, with a leading zero.
pub open spec fn two_digits(n: nat) -> Seq<char> {
    if n < 10 {
        seq!['0'] + decimal(n)
    } else {
        decimal(n)
    }
}

/// `n` in decimal, at least two characters, with a leading space.
pub open spec fn pad2(n: nat) -> Seq<char> {
    if n < 10 {
        seq![' '] + decimal(n)
    } else {
        decimal(n)
    }
}

/// A duration in milliseconds as `m:ss`.
pub open spec fn time_text(ms: u64) -> Seq<char> {
    let total = ms / 1000;
    decimal((total / 60) as nat) + seq![':'] + two_digits((total % 60) as nat)
}

/// Formats a duration in milliseconds as `m:ss` (whole seconds, minutes unbounded).
pub fn format_time(ms: u64) -> (s: String)
    ensures
        s@ == time_text(ms),
{
    let total = ms / 1000;
    let mut s = String::new();
    push_decimal(&mut s, total / 60);
    push_char(&mut s, ':');
    let secs = total % 60;
    if secs < 10 {
        push_char(&mut s, '0');
    }
    push_decimal(&mut s, secs);
    assert(s@ =~= time_text(ms));
    s
}

/// The artist a list row names: the first artist, or "Unknown".
pub open spec fn first_artist(t: TrackView) -> Seq<char> {
    if t.artists.len() > 0 {
        t.artists[0]
    } else {
        "Unknown"@
    }
}

/// Row of a song: its name and first artist.
pub open spec fn song_text(t: TrackView) -> Seq<char> {
    t.name + " — "@ + first_artist(t)
}

/// Row of an album: its name and artist.
pub open spec fn album_text(a: AlbumView) -> Seq<char> {
    a.name + " — "@ + a.artist
}

/// Row of a playlist: its name and track count.
pub open spec fn playlist_text(name: Seq<char>, count: usize) -> Seq<char> {
    name + " ("@ + decimal(count as nat) + " tracks)"@
}

/// Row of a track in an album: its number (when it has one), name and duration.
pub open spec fn detail_text(t: TrackView) -> Seq<char> {
    (match t.track_no {
        Some(n) => pad2(n as nat) + ". "@,
        None => Seq::empty(),
    }) + t.name + "  ["@ + time_text(t.length) + "]"@
}

/// The row of a song.
pub fn song_row(t: &Track) -> (s: String)
    ensures
        s@ == song_text(t@),
{
    let mut s = t.name.clone();
    s.append(" — ");
    if t.artists.len() > 0 {
        s.append(t.artists[0].as_str());
    } else {
        s.append("Unknown");
    }
    s
}

/// The row of an album.
pub fn album_row(a: &Album) -> (s: String)
    ensures
        s@ == album_text(a@),
{
    let mut s = a.name.clone();
    s.append(" — ");
    s.append(a.artist.as_str());
    s
}

/// The row of a playlist.
pub fn playlist_row(p: &Playlist) -> (s: String)
    ensures
        s@ == playlist_text(p.name@, p.track_count),
{
    let mut s = p.name.clone();
    s.append(" (");
    push_decimal(&mut s, p.track_count as u64);
    s.append(" tracks)");
    s
}

/// The row of a track in the album view.
pub fn detail_row(t: &Track) -> (s: String)
    ensures
        s@ == detail_text(t@),
{
    let mut s = String::new();
    if let Some(n) = t.track_no {
        if n < 10 {
            push_char(&mut s, ' ');
        }
        push_decimal(&mut s, n as u64);
        s.append(". ");
    }
    s.append(t.name.as_str());
    s.append("  [");
    let d = format_time(t.length);
    s.append(d.as_str());
    s.append("]");
    assert(s@ =~= detail_text(t@));
    s
}

/// The title of the main panel.
pub open spec fn title_text(app: &App) -> Seq<char> {
    match app.main_view {
        MainView::Artists => " Artists "@,
        MainView::Albums => if app.selected_artist is Some {
            " Albums "@
        } else {
            " All Albums "@
        },
        MainView::Songs => " Songs "@,
        MainView::Playlists => " Playlists "@,
        MainView::AlbumDetail => " Tracks "@,
    }
}

/// The title of the main panel.
pub fn main_title(app: &App) -> (s: &'static str)
    ensures
        s@ == title_text(app),
{
    match app.main_view {
        MainView::Artists => " Artists ",
        MainView::Albums => if app.selected_artist.is_some() {
            " Albums "
        } else {
            " All Albums "
        },
        MainView::Songs => " Songs ",
        MainView::Playlists => " Playlists ",
        MainView::AlbumDetail => " Tracks ",
    }
}

/// The rows the main panel lists for the active view, given the library.
pub open spec fn rows_text(app: &App, lib: Library) -> Seq<Seq<char>> {
    match app.main_view {
        MainView::Artists => lib.artist_list(),
        MainView::Albums => shown_albums(lib, app.selected_artist).map_values(
            |a: AlbumView| album_text(a),
        ),
        MainView::Songs => lib.track_list().map_values(|t: TrackView| song_text(t)),
        MainView::Playlists => app.playlists@.map_values(
            |p: Playlist| playlist_text(p.name@, p.track_count),
        ),
        MainView::AlbumDetail => {
            let albums = shown_albums(lib, app.selected_artist);
            match app.selected_album_index {
                Some(i) => if i < albums.len() {
                    albums[i as int].tracks.map_values(|t: TrackView| detail_text(t))
                } else {
                    Seq::empty()
                },
                None => Seq::empty(),
            }
        },
    }
}

/// The rows the main panel lists for the active view; `None` before a library is
/// loaded.
pub fn main_rows(app: &App) -> (rows: Option<Vec<String>>)
    ensures
        match app.library {
            Some(lib) => rows matches Some(r) && strings_view(r@) == rows_text(app, lib),
            None => rows is None,
        },
{
    let lib = match &app.library {
        Some(l) => l,
        None => return None,
    };
    let mut rows: Vec<String> = Vec::new();
    match app.main_view {
        MainView::Artists => {
            let names = lib.artist_names();
            assert(names@.len() == names@.map_values(|s: &String| s@).len());
            let mut i: usize = 0;
            while i < names.len()
                invariant
                    i <= names@.len(),
                    names@.map_values(|s: &String| s@) == lib.artist_list(),
                    names@.len() == lib.artist_list().len(),
                    strings_view(rows@) == lib.artist_list().subrange(0, i as int),
                decreases names@.len() - i,
            {
                let ghost prev = strings_view(rows@);
                let n = names[i].clone();
                assert(names@.map_values(|s: &String| s@)[i as int] == names@[i as int]@);
                rows.push(n);
                assert(strings_view(rows@) =~= prev.push(n@));
                assert(strings_view(rows@) =~= lib.artist_list().subrange(0, i + 1));
                i = i + 1;
            }
        },
        MainView::Albums | MainView::AlbumDetail => {
            let albums = app.shown_albums_exec(lib);
            let ghost shown = shown_albums(*lib, app.selected_artist);
            assert(albums@.len() == albums@.map_values(|a: &Album| a@).len());
            if app.main_view == MainView::Albums {
                let mut i: usize = 0;
                while i < albums.len()
                    invariant
                        i <= albums@.len(),
                        albums@.map_values(|a: &Album| a@) == shown,
                        albums@.len() == shown.len(),
                        strings_view(rows@) == shown.map_values(|a: AlbumView| album_text(a)).subrange(
                            0,
                            i as int,
                        ),
                    decreases albums@.len() - i,
                {
                    let ghost prev = strings_view(rows@);
                    let r = album_row(albums[i]);
                    assert(albums@.map_values(|a: &Album| a@)[i as int] == albums@[i as int]@);
                    rows.push(r);
                    assert(strings_view(rows@) =~= prev.push(r@));
                    assert(strings_view(rows@) =~= shown.map_values(|a: AlbumView| album_text(a)).subrange(
                        0,
                        i + 1,
                    ));
                    i = i + 1;
                }
            } else if let Some(a) = app.selected_album_index {
                if a < albums.len() {
                    let album = albums[a];
                    assert(albums@.map_values(|x: &Album| x@)[a as int] == albums@[a as int]@);
                    assert(album@ == shown[a as int]);
                    assert(album.tracks@.len() == tracks_view(album.tracks@).len());
                    let mut i: usize = 0;
                    while i < album.tracks.len()
                        invariant
                            i <= album.tracks@.len(),
                            a < shown.len(),
                            tracks_view(album.tracks@) == shown[a as int].tracks,
                            album.tracks@.len() == shown[a as int].tracks.len(),
                            strings_view(rows@) == shown[a as int].tracks.map_values(
                                |t: TrackView| detail_text(t),
                            ).subrange(0, i as int),
                        decreases album.tracks@.len() - i,
                    {
                        let ghost prev = strings_view(rows@);
                        let r = detail_row(&album.tracks[i]);
                        assert(tracks_view(album.tracks@)[i as int] == album.tracks@[i as int]@);
                        rows.push(r);
                        assert(strings_view(rows@) =~= prev.push(r@));
                        assert(strings_view(rows@) =~= shown[a as int].tracks.map_values(
                            |t: TrackView| detail_text(t),
                        ).subrange(0, i + 1));
                        i = i + 1;
                    }
                    assert(shown[a as int].tracks.map_values(|t: TrackView| detail_text(t)).subrange(
                        0,
                        album.tracks@.len() as int,
                    ) =~= shown[a as int].tracks.map_values(|t: TrackView| detail_text(t)));
                } else {
                    assert(strings_view(rows@) =~= Seq::<Seq<char>>::empty());
                }
            } else {
                assert(strings_view(rows@) =~= Seq::<Seq<char>>::empty());
            }
        },
        MainView::Songs => {
            let tracks = lib.all_tracks();
            let ghost list = lib.track_list();
            assert(tracks@.len() == tracks_view(tracks@).len());
            let mut i: usize = 0;
            while i < tracks.len()
                invariant
                    i <= tracks@.len(),
                    tracks_view(tracks@) == list,
                    tracks@.len() == list.len(),
                    strings_view(rows@) == list.map_values(|t: TrackView| song_text(t)).subrange(
                        0,
                        i as int,
                    ),
                decreases tracks@.len() - i,
            {
                let ghost prev = strings_view(rows@);
                let r = song_row(&tracks[i]);
                assert(tracks_view(tracks@)[i as int] == tracks@[i as int]@);
                rows.push(r);
                assert(strings_view(rows@) =~= prev.push(r@));
                assert(strings_view(rows@) =~= list.map_values(|t: TrackView| song_text(t)).subrange(
                    0,
                    i + 1,
                ));
                i = i + 1;
            }
        },
        MainView::Playlists => {
            let mut i: usize = 0;
            while i < app.playlists.len()
                invariant
                    i <= app.playlists@.len(),
                    strings_view(rows@) == app.playlists@.map_values(
                        |p: Playlist| playlist_text(p.name@, p.track_count),
                    ).subrange(0, i as int),
                decreases app.playlists@.len() - i,
            {
                let ghost prev = strings_view(rows@);
                let r = playlist_row(&app.playlists[i]);
                rows.push(r);
                assert(strings_view(rows@) =~= prev.push(r@));
                assert(strings_view(rows@) =~= app.playlists@.map_values(
                    |p: Playlist| playlist_text(p.name@, p.track_count),
                ).subrange(0, i + 1));
                i = i + 1;
            }
        },
    }
    proof {
        let r = rows_text(app, *lib);
        assert(r.subrange(0, r.len() as int) =~= r);
    }
    Some(rows)
}

/// The artists line of the now-playing bar: all artists joined by ", ", or
/// "Unknown".
pub open spec fn artists_text(artists: Seq<Seq<char>>) -> Seq<char>
    decreases artists.len(),
{
    if artists.len() == 0 {
        "Unknown"@
    } else if artists.len() == 1 {
        artists[0]
    } else {
        artists_text(artists.drop_last()) + ", "@ + artists.last()
    }
}

/// All artists of a track joined by ", ", or "Unknown".
pub fn artists_line(t: &Track) -> (s: String)
    ensures
        s@ == artists_text(strings_view(t.artists@)),
{
    let ghost a = strings_view(t.artists@);
    if t.artists.len() == 0 {
        return String::from_str("Unknown");
    }
    let mut s = t.artists[0].clone();
    let mut i: usize = 1;
    assert(a.subrange(0, 1).len() == 1);
    while i < t.artists.len()
        invariant
            1 <= i <= t.artists@.len(),
            a == strings_view(t.artists@),
            s@ == artists_text(a.subrange(0, i as int)),
        decreases t.artists@.len() - i,
    {
        s.append(", ");
        s.append(t.artists[i].as_str());
        assert(a.subrange(0, i + 1).drop_last() =~= a.subrange(0, i as int));
        i = i + 1;
    }
    assert(a.subrange(0, a.len() as int) =~= a);
    s
}

/// The playback state mark of the now-playing bar.
pub fn state_icon(state: Option<PlaybackState>) -> (s: &'static str)
    ensures
        s@ == (match state {
            Some(PlaybackState::Playing) => ">>"@,
            Some(PlaybackState::Paused) => "||"@,
            _ => "--"@,
        }),
{
    match state {
        Some(PlaybackState::Playing) => ">>",
        Some(PlaybackState::Paused) => "||",
        _ => "--",
    }
}

/// The mode marks of the now-playing bar: `[S] ` with shuffle, then `[R] ` or `[R1] `
/// for repeat all or one.
pub fn mode_marks(shuffle: bool, repeat: RepeatMode) -> (s: String)
    ensures
        s@ == (if shuffle {
            "[S] "@
        } else {
            ""@
        }) + (match repeat {
            RepeatMode::Off => ""@,
            RepeatMode::All => "[R] "@,
            RepeatMode::One => "[R1] "@,
        }),
{
    let mut s = String::new();
    if shuffle {
        s.append("[S] ");
    } else {
        s.append("");
    }
    match repeat {
        RepeatMode::Off => s.append(""),
        RepeatMode::All => s.append("[R] "),
        RepeatMode::One => s.append("[R1] "),
    }
    s
}

/// Row of the queue: its 1-based position and the track name.
pub open spec fn queue_text(i: int, name: Seq<char>) -> Seq<char> {
    "  "@ + decimal((i + 1) as nat) + ". "@ + name
}

/// The queue rows.
pub fn queue_rows(names: &Vec<String>) -> (rows: Vec<String>)
    ensures
        rows@.len() == names@.len(),
        forall|i: int| 0 <= i < rows@.len() ==> (#[trigger] rows@[i])@ == queue_text(i, names@[i]@),
{
    let mut rows: Vec<String> = Vec::new();
    let mut i: usize = 0;
    while i < names.len()
        invariant
            i <= names@.len(),
            rows@.len() == i,
            forall|k: int| 0 <= k < i ==> (#[trigger] rows@[k])@ == queue_text(k, names@[k]@),
        decreases names@.len() - i,
    {
        let mut s = String::new();
        s.append("  ");
        push_decimal(&mut s, (i as u64) + 1);
        s.append(". ");
        s.append(names[i].as_str());
        rows.push(s);
        i = i + 1;
    }
    rows
}

} // verus!
