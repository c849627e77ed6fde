//! State of the terminal front end: focus, views, list selections, search, queue,
//! status line, and how keys, mouse clicks and player events change them.
use vstd::prelude::*;
use crate::library::{albums_view, gt_album_name, Album, AlbumView, Library};
use crate::lyrics::{timed_view, Lyrics};
use crate::sorting::stable_sort;
use crate::paths::{path_of, uri_to_path};
use crate::player::{code_state, command_post, CommandLoop, SharedState};
use crate::text::{chars_of, push_char, str_eq, string_from_range};
use crate::types::{
    commands_view, strings_view, tracks_view, CommandView, PlaybackState, PlayerCommand,
    PlayerEvent, Playlist, RepeatMode, Track, TrackView,
};

verus! {

/// Which UI region has keyboard focus.
#[derive(Debug, Clone, Copy, PartialEq, Eq, Structural)]
pub enum Focus {
    Sidebar,
    Main,
    Search,
}

/// Which view is displayed in the main panel.
#[derive(Debug, Clone, Copy, PartialEq, Eq, Structural)]
pub enum MainView {
    Artists,
    Albums,
    Songs,
    Playlists,
    AlbumDetail,
}

/// Player command to execute after key handling.
#[derive(Debug)]
pub enum PlayerAction {
    PlayPause,
    Next,
    Previous,
    Seek(i64),
    PlayTrackUri(String),
    LoadTrackUris(Vec<String>),
    ToggleShuffle,
    CycleRepeat,
}

/// Model of a [`PlayerAction`].
pub enum ActionView {
    PlayPause,
    Next,
    Previous,
    Seek(i64),
    PlayTrackUri(Seq<char>),
    LoadTrackUris(Seq<Seq<char>>),
    ToggleShuffle,
    CycleRepeat,
}

impl View for PlayerAction {
    type V = ActionView;

    open spec fn view(&self) -> ActionView {
        match self {
            PlayerAction::PlayPause => ActionView::PlayPause,
            PlayerAction::Next => ActionView::Next,
            PlayerAction::Previous => ActionView::Previous,
            PlayerAction::Seek(d) => ActionView::Seek(*d),
            PlayerAction::PlayTrackUri(u) => ActionView::PlayTrackUri(u@),
            PlayerAction::LoadTrackUris(us) => ActionView::LoadTrackUris(strings_view(us@)),
            PlayerAction::ToggleShuffle => ActionView::ToggleShuffle,
            PlayerAction::CycleRepeat => ActionView::CycleRepeat,
        }
    }
}

/// The model of an optional action.
pub open spec fn action_opt(a: Option<PlayerAction>) -> Option<ActionView> {
    match a {
        Some(x) => Some(x@),
        None => None,
    }
}

/// A key, as the front end distinguishes keys.
#[derive(Debug, Clone, Copy, PartialEq, Eq, Structural)]
pub enum KeyCode {
    Char(char),
    Tab,
    Enter,
    Esc,
    Backspace,
    Left,
    Right,
    Up,
    Down,
    Other,
}

/// Whether a key went down, repeats, or went up.
#[derive(Debug, Clone, Copy, PartialEq, Eq, Structural)]
pub enum KeyEventKind {
    Press,
    Repeat,
    Release,
}

/// The modifier keys held down with a key, as a set of bit flags.
#[derive(Debug, Clone, Copy, PartialEq, Eq, Structural)]
pub struct KeyModifiers {
    pub bits: u8,
}

impl KeyModifiers {
    /// No modifier held.
    pub fn none() -> (m: KeyModifiers)
        ensures
            m.bits == 0,
    {
        KeyModifiers { bits: 0 }
    }

    /// Shift alone.
    pub fn shift() -> (m: KeyModifiers)
        ensures
            m.bits == 1,
    {
        KeyModifiers { bits: 1 }
    }

    /// Shift is among the modifiers.
    pub open spec fn has_shift(self) -> bool {
        self.bits % 2 == 1
    }

    pub fn has_shift_key(&self) -> (b: bool)
        ensures
            b == self.has_shift(),
    {
        self.bits % 2 == 1
    }
}

/// A keyboard event.
#[derive(Debug, Clone, Copy, PartialEq, Eq, Structural)]
pub struct KeyEvent {
    pub code: KeyCode,
    pub modifiers: KeyModifiers,
    pub kind: KeyEventKind,
}

/// Selection in a list view.
#[derive(Debug, Clone, Copy, PartialEq, Eq, Structural)]
pub struct ListState {
    selected: Option<usize>,
}

impl ListState {
    pub closed spec fn sel(&self) -> Option<usize> {
        self.selected
    }

    /// The list state selecting `s`.
    pub closed spec fn with_sel(s: Option<usize>) -> ListState {
        ListState { selected: s }
    }

    /// `with_sel(s)` selects `s`, and every list state is the one selecting what it
    /// selects.
    pub proof fn lemma_sel(l: ListState, s: Option<usize>)
        ensures
            ListState::with_sel(s).sel() == s,
            ListState::with_sel(l.sel()) == l,
    {
    }

    pub fn selected(&self) -> (s: Option<usize>)
        ensures
            s == self.sel(),
    {
        self.selected
    }

    pub fn select(&mut self, s: Option<usize>)
        ensures
            *final(self) == ListState::with_sel(s),
            final(self).sel() == s,
    {
        self.selected = s;
    }
}

impl Default for ListState {
    fn default() -> (l: ListState)
        ensures
            l.sel() is None,
    {
        ListState { selected: None }
    }
}

/// Now-playing state cached from player callbacks.
#[derive(Debug)]
pub struct NowPlayingState {
    pub track: Option<Track>,
    pub state: Option<PlaybackState>,
    pub position_ms: u64,
    pub volume: u8,
    pub shuffle: bool,
    pub repeat: RepeatMode,
}

impl Default for NowPlayingState {
    fn default() -> (n: NowPlayingState)
        ensures
            n.track is None,
            n.state is None,
            n.position_ms == 0,
            n.volume == 0,
            !n.shuffle,
            n.repeat == RepeatMode::Off,
    {
        NowPlayingState {
            track: None,
            state: None,
            position_ms: 0,
            volume: 0,
            shuffle: false,
            repeat: RepeatMode::Off,
        }
    }
}

/// Cached album art state.
#[derive(Debug)]
pub struct ArtState {
    /// URI of the track whose art is currently cached.
    pub current_uri: Option<String>,
    /// Whether we have art for the current track.
    pub has_art: bool,
    /// Raw image bytes (for rendering by the UI layer).
    pub image_bytes: Option<Vec<u8>>,
}

impl Default for ArtState {
    fn default() -> (a: ArtState)
        ensures
            a.current_uri is None,
            !a.has_art,
            a.image_bytes is None,
    {
        ArtState { current_uri: None, has_art: false, image_bytes: None }
    }
}

/// Search overlay state.
#[derive(Debug)]
pub struct SearchState {
    pub active: bool,
    pub query: String,
    pub results_state: ListState,
}

impl Default for SearchState {
    fn default() -> (s: SearchState)
        ensures
            !s.active,
            s.query@ == Seq::<char>::empty(),
            s.results_state.sel() is None,
    {
        SearchState { active: false, query: String::new(), results_state: ListState::default() }
    }
}

/// Queue display state.
#[derive(Debug)]
pub struct QueueState {
    pub list_state: ListState,
    pub track_uris: Vec<String>,
    pub track_names: Vec<String>,
}

impl Default for QueueState {
    fn default() -> (q: QueueState)
        ensures
            q.list_state.sel() is None,
            q.track_uris@.len() == 0,
            q.track_names@.len() == 0,
    {
        QueueState { list_state: ListState::default(), track_uris: Vec::new(), track_names: Vec::new() }
    }
}

/// Status message shown temporarily above the now-playing bar.
#[derive(Debug)]
pub struct StatusMessage {
    pub text: String,
    pub expires_tick: u64,
}

/// The lyrics overlay.
#[derive(Debug)]
pub struct LyricsState {
    /// Whether the overlay is shown.
    pub active: bool,
    /// Lyrics of the playing track, once loaded.
    pub lyrics: Option<Lyrics>,
    /// For synced lyrics, the line being sung.
    pub current_line: usize,
    /// For unsynced lyrics, the first line shown.
    pub scroll_offset: usize,
}

impl Default for LyricsState {
    fn default() -> (l: LyricsState)
        ensures
            !l.active,
            l.lyrics is None,
            l.current_line == 0,
            l.scroll_offset == 0,
    {
        LyricsState { active: false, lyrics: None, current_line: 0, scroll_offset: 0 }
    }
}

/// Root application state.
pub struct App {
    pub should_quit: bool,
    pub focus: Focus,
    pub sidebar_nav_index: usize,
    pub main_view: MainView,
    pub now_playing: NowPlayingState,
    pub library: Option<Library>,
    pub scanning: bool,
    pub search: SearchState,
    pub queue: QueueState,
    pub status: Option<StatusMessage>,
    pub tick_count: u64,
    pub playlists: Vec<Playlist>,
    pub art: ArtState,
    pub artist_list_state: ListState,
    pub album_list_state: ListState,
    pub song_list_state: ListState,
    pub playlist_list_state: ListState,
    pub detail_list_state: ListState,
    pub selected_artist: Option<String>,
    pub selected_album_index: Option<usize>,
    pub visualizer_mode: VisualizerMode,
    pub lyrics: LyricsState,
}

/// The view the sidebar entry at `index` opens.
pub open spec fn nav_view(index: usize) -> MainView {
    if index == 1 {
        MainView::Albums
    } else if index == 2 {
        MainView::Songs
    } else if index == 3 {
        MainView::Playlists
    } else {
        MainView::Artists
    }
}

/// Number of sidebar entries.
pub open spec fn nav_len() -> usize {
    4
}

/// The view the sidebar entry at `index` opens; indices past the last give Artists.
pub fn nav_index_to_view(index: usize) -> (v: MainView)
    ensures
        v == nav_view(index),
{
    match index {
        0 => MainView::Artists,
        1 => MainView::Albums,
        2 => MainView::Songs,
        3 => MainView::Playlists,
        _ => MainView::Artists,
    }
}

/// The list selection of the view shown in the main panel.
pub open spec fn active_sel(app: &App) -> Option<usize> {
    match app.main_view {
        MainView::Artists => app.artist_list_state.sel(),
        MainView::Albums => app.album_list_state.sel(),
        MainView::Songs => app.song_list_state.sel(),
        MainView::Playlists => app.playlist_list_state.sel(),
        MainView::AlbumDetail => app.detail_list_state.sel(),
    }
}

/// The albums the album views show: the selected artist's, or all albums by name.
pub open spec fn shown_albums(lib: Library, artist: Option<String>) -> Seq<AlbumView> {
    match artist {
        Some(a) => lib.albums_for(a@),
        None => stable_sort(lib.albums_flat(), gt_album_name()),
    }
}

/// The track the selection in the Songs or album-detail view points at.
pub open spec fn selected_track(app: &App) -> Option<TrackView> {
    match app.library {
        None => None,
        Some(lib) => match app.main_view {
            MainView::Songs => match app.song_list_state.sel() {
                Some(i) => if i < lib.track_list().len() {
                    Some(lib.track_list()[i as int])
                } else {
                    None
                },
                None => None,
            },
            MainView::AlbumDetail => {
                let albums = shown_albums(lib, app.selected_artist);
                match (app.selected_album_index, app.detail_list_state.sel()) {
                    (Some(a), Some(i)) => if a < albums.len() && i < albums[a as int].tracks.len() {
                        Some(albums[a as int].tracks[i as int])
                    } else {
                        None
                    },
                    _ => None,
                }
            },
            _ => None,
        },
    }
}

/// The URIs of the album shown in the detail view.
pub open spec fn detail_uris(app: &App) -> Option<Seq<Seq<char>>> {
    match app.library {
        None => None,
        Some(lib) => {
            let albums = shown_albums(lib, app.selected_artist);
            match app.selected_album_index {
                Some(a) => if a < albums.len() {
                    Some(albums[a as int].tracks.map_values(|t: TrackView| t.uri))
                } else {
                    None
                },
                None => None,
            }
        },
    }
}

/// Everything but the list selections of the main views is unchanged.
pub open spec fn same_but_lists(a: &App, b: &App) -> bool {
    &&& a.should_quit == b.should_quit
    &&& a.focus == b.focus
    &&& a.sidebar_nav_index == b.sidebar_nav_index
    &&& a.main_view == b.main_view
    &&& a.now_playing == b.now_playing
    &&& a.library == b.library
    &&& a.scanning == b.scanning
    &&& a.search == b.search
    &&& a.queue == b.queue
    &&& a.status == b.status
    &&& a.tick_count == b.tick_count
    &&& a.playlists == b.playlists
    &&& a.art == b.art
    &&& a.selected_artist == b.selected_artist
    &&& a.selected_album_index == b.selected_album_index
    &&& a.visualizer_mode == b.visualizer_mode
    &&& a.lyrics == b.lyrics
}

/// The state after moving the active list selection by one (down when `down`).
pub open spec fn moved_selection(app: &App, down: bool) -> Option<usize> {
    let current = match active_sel(app) {
        Some(c) => c,
        None => 0,
    };
    Some(
        if down {
            if current == usize::MAX {
                current
            } else {
                (current + 1) as usize
            }
        } else {
            if current == 0 {
                0
            } else {
                (current - 1) as usize
            }
        },
    )
}

/// Only the active list selection differs, and it is `sel`.
pub open spec fn only_active_sel_changed(old: &App, new: &App, sel: Option<usize>) -> bool {
    &&& same_but_lists(old, new)
    &&& active_sel(new) == sel
    &&& (old.main_view != MainView::Artists ==> new.artist_list_state == old.artist_list_state)
    &&& (old.main_view != MainView::Albums ==> new.album_list_state == old.album_list_state)
    &&& (old.main_view != MainView::Songs ==> new.song_list_state == old.song_list_state)
    &&& (old.main_view != MainView::Playlists ==> new.playlist_list_state
        == old.playlist_list_state)
    &&& (old.main_view != MainView::AlbumDetail ==> new.detail_list_state
        == old.detail_list_state)
}


/// Focus after Tab.
pub open spec fn tabbed(f: Focus) -> Focus {
    match f {
        Focus::Sidebar => Focus::Main,
        Focus::Main => Focus::Sidebar,
        Focus::Search => Focus::Main,
    }
}

/// A digit key choosing one of the sidebar entries.
pub open spec fn nav_digit(c: char) -> bool {
    '1' <= c && c <= '4'
}

/// The seek step of an arrow key in milliseconds: 5 seconds, or 30 with Shift held;
/// backward for Left, forward for Right.
pub open spec fn seek_delta(m: KeyModifiers, forward: bool) -> i64 {
    let step: i64 = if m.has_shift() {
        30000
    } else {
        5000
    };
    if forward {
        step
    } else {
        (-step) as i64
    }
}

/// The keys handled the same whatever has focus (for this state).
pub open spec fn is_global(o: &App, k: KeyEvent) -> bool {
    match k.code {
        KeyCode::Char(c) => c == 'q' || nav_digit(c) || c == ' ' || c == '+' || c == '=' || c == '-'
            || (o.focus != Focus::Search && (c == 'n' || c == 'p' || c == 's' || c == 'r' || c
            == 'V' || c == 'L' || c == '/' || c == 'h' || c == 'l' || c == 'H')),
        KeyCode::Tab => true,
        KeyCode::Left => true,
        KeyCode::Right => true,
        KeyCode::Esc => o.search.active || o.main_view == MainView::AlbumDetail,
        _ => false,
    }
}

/// Effect of a global key (see [`is_global`]).
pub open spec fn global_post(o: &App, f: &App, k: KeyEvent, r: Option<ActionView>) -> bool {
    match k.code {
        KeyCode::Char(c) => if c == 'q' {
            r is None && *f == App { should_quit: true, ..*o }
        } else if nav_digit(c) {
            let idx = (c as u32 - '1' as u32) as usize;
            r is None && *f == App { sidebar_nav_index: idx, main_view: nav_view(idx), ..*o }
        } else if c == ' ' {
            r == Some(ActionView::PlayPause) && *f == *o
        } else if c == '+' || c == '=' {
            r is None && *f == App {
                now_playing: NowPlayingState {
                    volume: if o.now_playing.volume + 5 > 100 {
                        100
                    } else {
                        (o.now_playing.volume + 5) as u8
                    },
                    ..o.now_playing
                },
                ..*o
            }
        } else if c == '-' {
            r is None && *f == App {
                now_playing: NowPlayingState {
                    volume: if o.now_playing.volume < 5 {
                        0
                    } else {
                        (o.now_playing.volume - 5) as u8
                    },
                    ..o.now_playing
                },
                ..*o
            }
        } else if c == 'n' {
            r == Some(ActionView::Next) && *f == *o
        } else if c == 'p' {
            r == Some(ActionView::Previous) && *f == *o
        } else if c == 's' {
            r == Some(ActionView::ToggleShuffle) && *f == *o
        } else if c == 'r' {
            r == Some(ActionView::CycleRepeat) && *f == *o
        } else if c == 'h' {
            r == Some(ActionView::Seek(-5000i64)) && *f == *o
        } else if c == 'l' {
            r == Some(ActionView::Seek(5000i64)) && *f == *o
        } else if c == 'H' {
            r == Some(ActionView::Seek(-30000i64)) && *f == *o
        } else if c == 'V' {
            r is None && *f == App { visualizer_mode: o.visualizer_mode.toggled(), ..*o }
        } else if c == 'L' {
            r is None && *f == App {
                lyrics: LyricsState { active: !o.lyrics.active, ..o.lyrics },
                ..*o
            }
        } else {
            // '/': open the search overlay with an empty query
            &&& r is None
            &&& f.search.query@ == Seq::<char>::empty()
            &&& *f == App {
                search: SearchState { active: true, query: f.search.query, ..o.search },
                focus: Focus::Search,
                ..*o
            }
        },
        KeyCode::Tab => r is None && *f == App { focus: tabbed(o.focus), ..*o },
        KeyCode::Left => r == Some(ActionView::Seek(seek_delta(k.modifiers, false))) && *f == *o,
        KeyCode::Right => r == Some(ActionView::Seek(seek_delta(k.modifiers, true))) && *f == *o,
        _ => if o.search.active {
            r is None && *f == App {
                search: SearchState { active: false, ..o.search },
                focus: Focus::Main,
                ..*o
            }
        } else {
            r is None && *f == App {
                main_view: if o.selected_artist is Some {
                    MainView::Albums
                } else {
                    MainView::Artists
                },
                ..*o
            }
        },
    }
}

/// Effect of a key in the search overlay: typing edits the query, Enter closes it.
pub open spec fn search_post(o: &App, f: &App, k: KeyEvent) -> bool {
    match k.code {
        KeyCode::Char(c) => f.search.query@ == o.search.query@.push(c) && *f == App {
            search: SearchState { query: f.search.query, ..o.search },
            ..*o
        },
        KeyCode::Backspace => f.search.query@ == (if o.search.query@.len() == 0 {
            o.search.query@
        } else {
            o.search.query@.drop_last()
        }) && *f == App { search: SearchState { query: f.search.query, ..o.search }, ..*o },
        KeyCode::Enter => *f == App {
            search: SearchState { active: false, ..o.search },
            focus: Focus::Main,
            ..*o
        },
        _ => *f == *o,
    }
}

/// Effect of a key with the sidebar focused: j/k move, Enter opens the entry.
pub open spec fn sidebar_post(o: &App, f: &App, k: KeyEvent) -> bool {
    match k.code {
        KeyCode::Char('j') | KeyCode::Down => *f == App {
            sidebar_nav_index: if o.sidebar_nav_index < nav_len() - 1 {
                (o.sidebar_nav_index + 1) as usize
            } else {
                o.sidebar_nav_index
            },
            ..*o
        },
        KeyCode::Char('k') | KeyCode::Up => *f == App {
            sidebar_nav_index: if o.sidebar_nav_index == 0 {
                0
            } else {
                (o.sidebar_nav_index - 1) as usize
            },
            ..*o
        },
        KeyCode::Enter => *f == App {
            main_view: nav_view(o.sidebar_nav_index),
            focus: Focus::Main,
            ..*o
        },
        _ => *f == *o,
    }
}

/// Effect of Enter in the main panel.
pub open spec fn activate_post(o: &App, f: &App, r: Option<ActionView>) -> bool {
    match o.main_view {
        MainView::Artists => r is None && match (o.library, o.artist_list_state.sel()) {
            (Some(lib), Some(s)) => if s < lib.artist_list().len() {
                &&& f.selected_artist matches Some(a) && a@ == lib.artist_list()[s as int]
                &&& *f == App {
                    selected_artist: f.selected_artist,
                    main_view: MainView::Albums,
                    album_list_state: ListState::with_sel(Some(0)),
                    ..*o
                }
            } else {
                *f == *o
            },
            _ => *f == *o,
        },
        MainView::Albums => r is None && match o.album_list_state.sel() {
            Some(s) => *f == App {
                selected_album_index: Some(s),
                main_view: MainView::AlbumDetail,
                detail_list_state: ListState::with_sel(Some(0)),
                ..*o
            },
            None => *f == *o,
        },
        MainView::Songs => *f == *o && r == match selected_track(o) {
            Some(t) => Some(ActionView::PlayTrackUri(t.uri)),
            None => None,
        },
        MainView::AlbumDetail => *f == *o && r == match detail_uris(o) {
            Some(u) => Some(ActionView::LoadTrackUris(u)),
            None => None,
        },
        MainView::Playlists => *f == *o && r is None,
    }
}

/// Effect of a key with the main panel focused.
pub open spec fn main_post(o: &App, f: &App, k: KeyEvent, r: Option<ActionView>) -> bool {
    match k.code {
        KeyCode::Char('j') | KeyCode::Down => r is None && only_active_sel_changed(
            o,
            f,
            moved_selection(o, true),
        ),
        KeyCode::Char('k') | KeyCode::Up => r is None && only_active_sel_changed(
            o,
            f,
            moved_selection(o, false),
        ),
        KeyCode::Enter => activate_post(o, f, r),
        KeyCode::Char('a') => r is None && match selected_track(o) {
            Some(t) => {
                &&& f.queue.track_uris@ == o.queue.track_uris@.push(f.queue.track_uris@.last())
                &&& f.queue.track_uris@.last()@ == t.uri
                &&& f.queue.track_names@ == o.queue.track_names@.push(f.queue.track_names@.last())
                &&& f.queue.track_names@.last()@ == t.name
                &&& *f == App {
                    queue: QueueState {
                        track_uris: f.queue.track_uris,
                        track_names: f.queue.track_names,
                        ..o.queue
                    },
                    ..*o
                }
            },
            None => *f == *o,
        },
        _ => r is None && *f == *o,
    }
}

/// The list state of the view shown in the main panel.
pub open spec fn active_list(app: &App) -> ListState {
    match app.main_view {
        MainView::Artists => app.artist_list_state,
        MainView::Albums => app.album_list_state,
        MainView::Songs => app.song_list_state,
        MainView::Playlists => app.playlist_list_state,
        MainView::AlbumDetail => app.detail_list_state,
    }
}

/// `app` with the list state of the view shown in the main panel replaced by `l`.
pub open spec fn with_active_list(app: &App, l: ListState) -> App {
    match app.main_view {
        MainView::Artists => App { artist_list_state: l, ..*app },
        MainView::Albums => App { album_list_state: l, ..*app },
        MainView::Songs => App { song_list_state: l, ..*app },
        MainView::Playlists => App { playlist_list_state: l, ..*app },
        MainView::AlbumDetail => App { detail_list_state: l, ..*app },
    }
}

/// The status message expires on the tick that reaches its expiry.
pub open spec fn status_expires(status: Option<StatusMessage>, tick: int) -> bool {
    status matches Some(m) && tick >= m.expires_tick
}

/// Whether the cached art belongs to the track with URI `uri`.
pub open spec fn art_is_for(art: ArtState, uri: Seq<char>) -> bool {
    art.current_uri matches Some(u) && u@ == uri
}

/// Effect of a player event on the front end's state.
pub open spec fn event_applied(o: &App, f: &App, ev: PlayerEvent) -> bool {
    match ev {
        PlayerEvent::StateChanged(st) => *f == App {
            now_playing: NowPlayingState { state: Some(st), ..o.now_playing },
            ..*o
        },
        PlayerEvent::TrackChanged(t) => {
            &&& art_is_for(o.art, t.uri@) ==> f.art == o.art
            &&& !art_is_for(o.art, t.uri@) ==> art_is_for(f.art, t.uri@) && !f.art.has_art
                && f.art.image_bytes is None
            &&& *f == App {
                now_playing: NowPlayingState { track: Some(t), position_ms: 0, ..o.now_playing },
                art: f.art,
                lyrics: LyricsState { lyrics: None, current_line: 0, scroll_offset: 0, ..o.lyrics },
                ..*o
            }
        },
        PlayerEvent::PositionUpdate(ms) => *f == App {
            now_playing: NowPlayingState { position_ms: ms, ..o.now_playing },
            lyrics: LyricsState {
                current_line: match o.lyrics.lyrics {
                    Some(Lyrics::Synced(lines)) => line_at(timed_view(lines@), ms),
                    _ => o.lyrics.current_line,
                },
                ..o.lyrics
            },
            ..*o
        },
        PlayerEvent::Error(msg) => {
            &&& f.status == Some(
                StatusMessage { text: msg, expires_tick: (o.tick_count + 20) as u64 },
            )
            &&& *f == App { status: f.status, ..*o }
        },
        PlayerEvent::ModeChanged { shuffle, repeat } => *f == App {
            now_playing: NowPlayingState { shuffle, repeat, ..o.now_playing },
            ..*o
        },
    }
}

/// Effect of a mouse click at (`x`, `y`) on a terminal of `w` by `h` cells: the
/// sidebar takes the left 30% above the three-row now-playing bar, and its rows 1
/// to 4 are the navigation entries.
pub open spec fn click_applied(o: &App, f: &App, x: u16, y: u16, w: u16, h: u16) -> bool {
    let sidebar_width = w * 30 / 100;
    let content_height = if h >= 3 {
        h - 3
    } else {
        0
    };
    if y < content_height {
        if x < sidebar_width {
            if 1 <= y && y <= 4 {
                let i = (y - 1) as usize;
                *f == App { focus: Focus::Sidebar, sidebar_nav_index: i, main_view: nav_view(i), ..*o }
            } else {
                *f == App { focus: Focus::Sidebar, ..*o }
            }
        } else {
            *f == App { focus: Focus::Main, ..*o }
        }
    } else {
        *f == *o
    }
}

/// Text of an extended M3U playlist holding the paths of `uris`, one per line.
pub open spec fn m3u_text(uris: Seq<Seq<char>>) -> Seq<char>
    decreases uris.len(),
{
    if uris.len() == 0 {
        "#EXTM3U\n"@
    } else {
        m3u_text(uris.drop_last()) + path_of(uris.last()) + seq!['\n']
    }
}

/// The seek target: the position moved by `delta`, kept within the track.
pub open spec fn seek_position(position_ms: u64, delta: i64, track_len: int) -> int {
    let target = position_ms + delta;
    if target < 0 {
        0
    } else if target > track_len {
        track_len
    } else {
        target
    }
}

/// Length of the playing track, zero when there is none.
pub open spec fn playing_length(app: &App) -> int {
    match app.now_playing.track {
        Some(t) => t.length as int,
        None => 0,
    }
}

/// A seek by `delta` stays within the range that the computation works in.
pub open spec fn seek_in_range(app: &App, delta: i64) -> bool {
    &&& playing_length(app) <= i64::MAX
    &&& app.now_playing.position_ms <= i64::MAX
    &&& i64::MIN <= app.now_playing.position_ms + delta <= i64::MAX
}

/// The commands that carry out a front-end action.
pub open spec fn action_commands(app: &App, a: ActionView) -> Seq<CommandView> {
    match a {
        ActionView::PlayPause => if app.now_playing.state == Some(PlaybackState::Playing) {
            seq![CommandView::Pause]
        } else {
            seq![CommandView::Play]
        },
        ActionView::Next => seq![CommandView::Next],
        ActionView::Previous => seq![CommandView::Previous],
        ActionView::Seek(d) => seq![
            CommandView::Seek(seek_position(app.now_playing.position_ms, d, playing_length(app)) as u64),
        ],
        ActionView::PlayTrackUri(u) => seq![CommandView::LoadTrackUris(seq![u]), CommandView::Play],
        ActionView::LoadTrackUris(us) => seq![CommandView::LoadTrackUris(us), CommandView::Play],
        ActionView::ToggleShuffle => seq![CommandView::SetShuffle(!app.now_playing.shuffle)],
        ActionView::CycleRepeat => seq![CommandView::SetRepeat(app.now_playing.repeat.cycled())],
    }
}

/// What each action asks of the player: next and previous ask for the next and the
/// previous track; the shuffle toggle asks for the opposite of the shown shuffle
/// flag and the repeat key for a different repeat mode; playing a track or a list
/// loads exactly those URIs and then plays; a seek asks for the shown position moved
/// by the delta, held between the start and the end of the playing track.
pub proof fn lemma_action_commands(app: &App, a: ActionView)
    ensures
        a == ActionView::Next ==> action_commands(app, a) == seq![CommandView::Next],
        a == ActionView::Previous ==> action_commands(app, a) == seq![CommandView::Previous],
        a == ActionView::ToggleShuffle ==> action_commands(app, a) == seq![
            CommandView::SetShuffle(!app.now_playing.shuffle),
        ],
        a == ActionView::CycleRepeat ==> action_commands(app, a).len() == 1 && action_commands(
            app,
            a,
        )[0] is SetRepeat && action_commands(app, a)[0]->SetRepeat_0 != app.now_playing.repeat,
        a matches ActionView::PlayTrackUri(u) ==> action_commands(app, a) == seq![
            CommandView::LoadTrackUris(seq![u]),
            CommandView::Play,
        ],
        a matches ActionView::LoadTrackUris(us) ==> action_commands(app, a) == seq![
            CommandView::LoadTrackUris(us),
            CommandView::Play,
        ],
        a matches ActionView::Seek(d) ==> {
            let target = app.now_playing.position_ms + d;
            let len = playing_length(app);
            &&& 0 <= target <= len ==> action_commands(app, a) == seq![
                CommandView::Seek(target as u64),
            ]
            &&& target < 0 ==> action_commands(app, a) == seq![CommandView::Seek(0)]
            &&& target > len ==> action_commands(app, a) == seq![CommandView::Seek(len as u64)]
        },
{
}

/// Space toggles playback. The one command it sends, answered by a player in the
/// state the front end shows, pauses a playing player, resumes a paused one, and
/// starts a stopped one that has a current track.
pub proof fn lemma_space_toggles(
    app: &App,
    cmd: PlayerCommand,
    o: CommandLoop,
    os: SharedState,
    n: CommandLoop,
    ns: SharedState,
    fx: Seq<crate::player::EffectView>,
)
    requires
        action_commands(app, ActionView::PlayPause) == seq![cmd@],
        app.now_playing.state == Some(code_state(os.playback_state)),
        o.wf(),
        command_post(o, os, cmd, n, ns, fx),
    ensures
        code_state(os.playback_state) == PlaybackState::Playing ==> code_state(ns.playback_state)
            == PlaybackState::Paused,
        code_state(os.playback_state) == PlaybackState::Paused ==> code_state(ns.playback_state)
            == PlaybackState::Playing,
        code_state(os.playback_state) == PlaybackState::Stopped && o.tracks().cur() is Some
            ==> code_state(ns.playback_state) == PlaybackState::Playing,
{
    assert(seq![cmd@][0] == cmd@);
    match cmd {
        PlayerCommand::Play => {},
        PlayerCommand::Pause => {},
        _ => {},
    }
}

/// The synced lyric line for a position: the last line whose timestamp is not past
/// the position, or the first line when the position comes before them all.
pub open spec fn line_at(lines: Seq<(u64, Seq<char>)>, pos: u64) -> usize
    decreases lines.len(),
{
    if lines.len() == 0 {
        0
    } else if lines.last().0 <= pos {
        (lines.len() - 1) as usize
    } else {
        line_at(lines.drop_last(), pos)
    }
}

/// The line shown for a position is the latest one already reached: when some line's
/// timestamp is not past the position, the chosen line's timestamp is not past it
/// and every later line's timestamp is; when none is reached yet, the first line is
/// shown. (Any list of lines a vector holds qualifies.)
pub proof fn lemma_line_at(lines: Seq<(u64, Seq<char>)>, pos: u64)
    requires
        lines.len() <= usize::MAX,
    ensures
        lines.len() > 0 ==> line_at(lines, pos) < lines.len(),
        (exists|k: int| 0 <= k < lines.len() && (#[trigger] lines[k]).0 <= pos) ==> {
            &&& lines[line_at(lines, pos) as int].0 <= pos
            &&& forall|k: int|
                line_at(lines, pos) < k < lines.len() ==> (#[trigger] lines[k]).0 > pos
        },
        (forall|k: int| 0 <= k < lines.len() ==> (#[trigger] lines[k]).0 > pos) ==> line_at(
            lines,
            pos,
        ) == 0,
    decreases lines.len(),
{
    if lines.len() > 0 {
        let d = lines.drop_last();
        lemma_line_at(d, pos);
        if lines.last().0 > pos {
            let la = line_at(lines, pos);
            assert(la == line_at(d, pos));
            if exists|k: int| 0 <= k < lines.len() && (#[trigger] lines[k]).0 <= pos {
                let k = choose|k: int| 0 <= k < lines.len() && (#[trigger] lines[k]).0 <= pos;
                assert(d[k].0 <= pos);
                assert(d[la as int] == lines[la as int]);
                assert forall|j: int| la < j < lines.len() implies (#[trigger] lines[j]).0 > pos by {
                    if j < d.len() {
                        assert(d[j] == lines[j]);
                    }
                }
            }
            assert forall|k: int| 0 <= k < d.len() implies d[k] == lines[k] by {}
        } else {
            assert(line_at(lines, pos) as int == lines.len() - 1);
            assert(lines[lines.len() - 1] == lines.last());
        }
    }
}

/// A position update moves the highlighted synced lyric line to the latest line
/// already reached: its timestamp is not past the new position and every later
/// line's is; before the first line is reached the first line is highlighted.
pub proof fn lemma_position_follows_lyrics(
    o: &App,
    f: &App,
    ms: u64,
    lines: Vec<(u64, String)>,
)
    requires
        event_applied(o, f, PlayerEvent::PositionUpdate(ms)),
        o.lyrics.lyrics == Some(Lyrics::Synced(lines)),
    ensures
        f.now_playing.position_ms == ms,
        ({
            let l = timed_view(lines@);
            let c = f.lyrics.current_line as int;
            &&& l.len() > 0 ==> c < l.len()
            &&& (exists|k: int| 0 <= k < l.len() && (#[trigger] l[k]).0 <= ms) ==> {
                &&& l[c].0 <= ms
                &&& forall|k: int| c < k < l.len() ==> (#[trigger] l[k]).0 > ms
            }
            &&& (forall|k: int| 0 <= k < l.len() ==> (#[trigger] l[k]).0 > ms) ==> c == 0
        }),
{
    assert(lines@.len() == lines.len());
    lemma_line_at(timed_view(lines@), ms);
}

/// The synced lyric line for a position (see [`line_at`]).
fn line_at_exec(lines: &Vec<(u64, String)>, pos: u64) -> (i: usize)
    ensures
        i == line_at(timed_view(lines@), pos),
{
    let ghost all = timed_view(lines@);
    let mut n: usize = lines.len();
    assert(all.subrange(0, n as int) =~= all);
    while n > 0 && lines[n - 1].0 > pos
        invariant
            n <= lines@.len(),
            all == timed_view(lines@),
            line_at(all, pos) == line_at(all.subrange(0, n as int), pos),
        decreases n,
    {
        let ghost pre = all.subrange(0, n as int);
        assert(pre.drop_last() =~= all.subrange(0, n - 1));
        assert(pre.last() == (lines@[n - 1].0, lines@[n - 1].1@));
        n = n - 1;
    }
    proof {
        assert(all.subrange(0, lines@.len() as int) =~= all);
        if n > 0 {
            let pre = all.subrange(0, n as int);
            assert(pre.last() == (lines@[n - 1].0, lines@[n - 1].1@));
        }
    }
    if n == 0 {
        0
    } else {
        n - 1
    }
}

/// Exchanges two entries of a list of strings.
fn swap_strings(v: &mut Vec<String>, i: usize, j: usize)
    requires
        i < old(v)@.len(),
        j < old(v)@.len(),
    ensures
        final(v)@ == old(v)@.update(i as int, old(v)@[j as int]).update(j as int, old(v)@[i as int]),
{
    if i != j {
        let mut tmp = String::new();
        v.set_and_swap(i, &mut tmp);
        v.set_and_swap(j, &mut tmp);
        v.set_and_swap(i, &mut tmp);
        assert(v@ =~= old(v)@.update(i as int, old(v)@[j as int]).update(j as int, old(v)@[i as int]));
    }
}

impl App {
    pub fn new() -> (app: App)
        ensures
            !app.should_quit,
            app.focus == Focus::Sidebar,
            app.sidebar_nav_index == 0,
            app.main_view == MainView::Artists,
            app.library is None,
            !app.scanning,
            !app.search.active,
            app.search.query@.len() == 0,
            app.queue.track_uris@.len() == 0,
            app.queue.track_names@.len() == 0,
            app.queue.list_state.sel() is None,
            app.status is None,
            app.tick_count == 0,
            app.playlists@.len() == 0,
            app.now_playing.track is None,
            app.now_playing.state is None,
            app.now_playing.position_ms == 0,
            app.now_playing.volume == 0,
            !app.now_playing.shuffle,
            app.now_playing.repeat == RepeatMode::Off,
            app.art.current_uri is None,
            !app.art.has_art,
            app.art.image_bytes is None,
            app.search.results_state.sel() is None,
            app.lyrics.current_line == 0,
            app.lyrics.scroll_offset == 0,
            app.artist_list_state.sel() is None,
            app.album_list_state.sel() is None,
            app.song_list_state.sel() is None,
            app.playlist_list_state.sel() is None,
            app.detail_list_state.sel() is None,
            app.selected_artist is None,
            app.selected_album_index is None,
            app.visualizer_mode == VisualizerMode::Spectrum,
            !app.lyrics.active,
            app.lyrics.lyrics is None,
    {
        App {
            should_quit: false,
            focus: Focus::Sidebar,
            sidebar_nav_index: 0,
            main_view: MainView::Artists,
            now_playing: NowPlayingState::default(),
            library: None,
            scanning: false,
            search: SearchState::default(),
            queue: QueueState::default(),
            status: None,
            tick_count: 0,
            playlists: Vec::new(),
            art: ArtState::default(),
            artist_list_state: ListState::default(),
            album_list_state: ListState::default(),
            song_list_state: ListState::default(),
            playlist_list_state: ListState::default(),
            detail_list_state: ListState::default(),
            selected_artist: None,
            selected_album_index: None,
            visualizer_mode: VisualizerMode::Spectrum,
            lyrics: LyricsState::default(),
        }
    }


    /// Handle a key event. Returns a PlayerAction if a player command should be issued.
    pub fn handle_key(&mut self, key: KeyEvent) -> (r: Option<PlayerAction>)
        requires
            key.kind == KeyEventKind::Press && (key.code == KeyCode::Char('+') || key.code
                == KeyCode::Char('=')) ==> old(self).now_playing.volume + 5 <= u8::MAX,
        ensures
            key.kind != KeyEventKind::Press ==> r is None && *final(self) == *old(self),
            key.kind == KeyEventKind::Press && is_global(old(self), key) ==> global_post(
                old(self),
                final(self),
                key,
                action_opt(r),
            ),
            key.kind == KeyEventKind::Press && !is_global(old(self), key) && old(self).focus
                == Focus::Search ==> r is None && search_post(old(self), final(self), key),
            key.kind == KeyEventKind::Press && !is_global(old(self), key) && old(self).focus
                == Focus::Sidebar ==> r is None && sidebar_post(old(self), final(self), key),
            key.kind == KeyEventKind::Press && !is_global(old(self), key) && old(self).focus
                == Focus::Main ==> main_post(old(self), final(self), key, action_opt(r)),
    {
        if key.kind != KeyEventKind::Press {
            return None;
        }
        let not_search = self.focus != Focus::Search;
        match key.code {
            KeyCode::Char(c) => {
                if c == 'q' {
                    self.should_quit = true;
                    return None;
                } else if '1' <= c && c <= '4' {
                    let idx = ((c as u32) - 0x31) as usize;
                    self.sidebar_nav_index = idx;
                    self.main_view = nav_index_to_view(idx);
                    return None;
                } else if c == ' ' {
                    return Some(PlayerAction::PlayPause);
                } else if c == 'n' && not_search {
                    return Some(PlayerAction::Next);
                } else if c == 'p' && not_search {
                    return Some(PlayerAction::Previous);
                } else if c == 's' && not_search {
                    return Some(PlayerAction::ToggleShuffle);
                } else if c == 'r' && not_search {
                    return Some(PlayerAction::CycleRepeat);
                } else if c == 'h' && not_search {
                    return Some(PlayerAction::Seek(-5000));
                } else if c == 'l' && not_search {
                    return Some(PlayerAction::Seek(5000));
                } else if c == 'H' && not_search {
                    return Some(PlayerAction::Seek(-30000));
                } else if c == 'V' && not_search {
                    self.visualizer_mode = self.visualizer_mode.toggle();
                    return None;
                } else if c == 'L' && not_search {
                    self.lyrics.active = !self.lyrics.active;
                    return None;
                } else if c == '+' || c == '=' {
                    let v = self.now_playing.volume + 5;
                    self.now_playing.volume = if v > 100 {
                        100
                    } else {
                        v
                    };
                    return None;
                } else if c == '-' {
                    self.now_playing.volume = self.now_playing.volume.saturating_sub(5);
                    return None;
                } else if c == '/' && not_search {
                    self.search.active = true;
                    self.search.query = String::new();
                    self.focus = Focus::Search;
                    return None;
                }
            },
            KeyCode::Tab => {
                self.focus = match self.focus {
                    Focus::Sidebar => Focus::Main,
                    Focus::Main => Focus::Sidebar,
                    Focus::Search => Focus::Main,
                };
                return None;
            },
            KeyCode::Left => {
                let step: i64 = if key.modifiers.has_shift_key() {
                    30000
                } else {
                    5000
                };
                return Some(PlayerAction::Seek(-step));
            },
            KeyCode::Right => {
                let step: i64 = if key.modifiers.has_shift_key() {
                    30000
                } else {
                    5000
                };
                return Some(PlayerAction::Seek(step));
            },
            KeyCode::Esc => {
                if self.search.active {
                    self.search.active = false;
                    self.focus = Focus::Main;
                    return None;
                }
                if self.main_view == MainView::AlbumDetail {
                    self.main_view = if self.selected_artist.is_some() {
                        MainView::Albums
                    } else {
                        MainView::Artists
                    };
                    return None;
                }
            },
            _ => {},
        }
        match self.focus {
            Focus::Search => {
                self.handle_search_key(key);
                None
            },
            Focus::Sidebar => {
                self.handle_sidebar_key(key);
                None
            },
            Focus::Main => self.handle_main_key(key),
        }
    }

    fn handle_sidebar_key(&mut self, key: KeyEvent)
        ensures
            sidebar_post(old(self), final(self), key),
    {
        match key.code {
            KeyCode::Char('j') | KeyCode::Down => {
                if self.sidebar_nav_index < 3 {
                    self.sidebar_nav_index = self.sidebar_nav_index + 1;
                }
            },
            KeyCode::Char('k') | KeyCode::Up => {
                self.sidebar_nav_index = self.sidebar_nav_index.saturating_sub(1);
            },
            KeyCode::Enter => {
                self.main_view = nav_index_to_view(self.sidebar_nav_index);
                self.focus = Focus::Main;
            },
            _ => {},
        }
    }

    fn handle_main_key(&mut self, key: KeyEvent) -> (r: Option<PlayerAction>)
        ensures
            main_post(old(self), final(self), key, action_opt(r)),
    {
        match key.code {
            KeyCode::Char('j') | KeyCode::Down => {
                self.move_main_selection(true);
                None
            },
            KeyCode::Char('k') | KeyCode::Up => {
                self.move_main_selection(false);
                None
            },
            KeyCode::Enter => self.activate_main_selection(),
            KeyCode::Char('a') => {
                if let Some(track) = self.get_selected_track() {
                    self.add_to_queue(track.uri, track.name);
                }
                None
            },
            _ => None,
        }
    }

    fn handle_search_key(&mut self, key: KeyEvent)
        ensures
            search_post(old(self), final(self), key),
    {
        match key.code {
            KeyCode::Char(c) => {
                push_char(&mut self.search.query, c);
            },
            KeyCode::Backspace => {
                let v = chars_of(self.search.query.as_str());
                if v.len() > 0 {
                    self.search.query = string_from_range(v.as_slice(), 0, v.len() - 1);
                }
            },
            KeyCode::Enter => {
                self.search.active = false;
                self.focus = Focus::Main;
            },
            _ => {},
        }
    }

    fn activate_main_selection(&mut self) -> (r: Option<PlayerAction>)
        ensures
            activate_post(old(self), final(self), action_opt(r)),
    {
        match self.main_view {
            MainView::Artists => {
                let name: Option<String> = match &self.library {
                    Some(lib) => {
                        let artists = lib.artist_names();
                        match self.artist_list_state.selected() {
                            Some(sel) => {
                                if sel < artists.len() {
                                    assert(artists@[sel as int]@ == lib.artist_list()[sel as int]);
                                    Some(artists[sel].clone())
                                } else {
                                    None
                                }
                            },
                            None => None,
                        }
                    },
                    None => None,
                };
                if let Some(n) = name {
                    self.selected_artist = Some(n);
                    self.main_view = MainView::Albums;
                    self.album_list_state.select(Some(0));
                }
                None
            },
            MainView::Albums => {
                if let Some(selected) = self.album_list_state.selected() {
                    self.selected_album_index = Some(selected);
                    self.main_view = MainView::AlbumDetail;
                    self.detail_list_state.select(Some(0));
                }
                None
            },
            MainView::Songs => {
                match self.get_selected_track() {
                    Some(track) => Some(PlayerAction::PlayTrackUri(track.uri)),
                    None => None,
                }
            },
            MainView::AlbumDetail => {
                match self.get_album_detail_uris() {
                    Some(uris) => Some(PlayerAction::LoadTrackUris(uris)),
                    None => None,
                }
            },
            MainView::Playlists => None,
        }
    }

    /// Add a track to the end of the queue.
    pub fn add_to_queue(&mut self, uri: String, name: String)
        ensures
            final(self).queue.track_uris@ == old(self).queue.track_uris@.push(uri),
            final(self).queue.track_names@ == old(self).queue.track_names@.push(name),
            *final(self) == (App {
                queue: QueueState {
                    track_uris: final(self).queue.track_uris,
                    track_names: final(self).queue.track_names,
                    ..old(self).queue
                },
                ..*old(self)
            }),
    {
        self.queue.track_uris.push(uri);
        self.queue.track_names.push(name);
    }

    /// Sets the selection of the view shown in the main panel.
    fn select_active(&mut self, sel: Option<usize>)
        ensures
            only_active_sel_changed(old(self), final(self), sel),
    {
        match self.main_view {
            MainView::Artists => self.artist_list_state.select(sel),
            MainView::Albums => self.album_list_state.select(sel),
            MainView::Songs => self.song_list_state.select(sel),
            MainView::Playlists => self.playlist_list_state.select(sel),
            MainView::AlbumDetail => self.detail_list_state.select(sel),
        }
    }

    /// The selection of the view shown in the main panel.
    fn active_selected(&self) -> (s: Option<usize>)
        ensures
            s == active_sel(self),
    {
        match self.main_view {
            MainView::Artists => self.artist_list_state.selected(),
            MainView::Albums => self.album_list_state.selected(),
            MainView::Songs => self.song_list_state.selected(),
            MainView::Playlists => self.playlist_list_state.selected(),
            MainView::AlbumDetail => self.detail_list_state.selected(),
        }
    }

    /// Moves the active list selection one step down or up, saturating.
    fn move_main_selection(&mut self, down: bool)
        ensures
            only_active_sel_changed(old(self), final(self), moved_selection(old(self), down)),
    {
        let current = match self.active_selected() {
            Some(c) => c,
            None => 0,
        };
        let new = if down {
            current.saturating_add(1)
        } else {
            current.saturating_sub(1)
        };
        self.select_active(Some(new));
    }

    /// Albums shown by the album views.
    pub(crate) fn shown_albums_exec<'a>(&self, lib: &'a Library) -> (r: Vec<&'a Album>)
        ensures
            r@.map_values(|a: &Album| a@) == shown_albums(*lib, self.selected_artist),
    {
        match &self.selected_artist {
            Some(artist) => {
                let s = lib.albums_by_artist(artist.as_str());
                let mut v: Vec<&Album> = Vec::new();
                let mut i: usize = 0;
                while i < s.len()
                    invariant
                        i <= s@.len(),
                        v@.len() == i,
                        forall|k: int| 0 <= k < i ==> (#[trigger] v@[k])@ == s@[k]@,
                    decreases s@.len() - i,
                {
                    v.push(&s[i]);
                    i = i + 1;
                }
                assert(v@.map_values(|a: &Album| a@) =~= albums_view(s@));
                v
            },
            None => lib.all_albums(),
        }
    }

    /// The currently selected track in the active view (a copy).
    fn get_selected_track(&self) -> (t: Option<Track>)
        ensures
            match t {
                Some(x) => selected_track(self) == Some(x@),
                None => selected_track(self) is None,
            },
    {
        let lib = match &self.library {
            Some(l) => l,
            None => return None,
        };
        match self.main_view {
            MainView::Songs => {
                let idx = match self.song_list_state.selected() {
                    Some(i) => i,
                    None => return None,
                };
                let tracks = lib.all_tracks();
                if idx < tracks.len() {
                    Some(tracks[idx].duplicate())
                } else {
                    None
                }
            },
            MainView::AlbumDetail => {
                let albums = self.shown_albums_exec(lib);
                let a = match self.selected_album_index {
                    Some(a) => a,
                    None => return None,
                };
                let idx = match self.detail_list_state.selected() {
                    Some(i) => i,
                    None => return None,
                };
                if a < albums.len() {
                    let album = albums[a];
                    assert(album@ == shown_albums(*lib, self.selected_artist)[a as int]);
                    if idx < album.tracks.len() {
                        Some(album.tracks[idx].duplicate())
                    } else {
                        None
                    }
                } else {
                    None
                }
            },
            _ => None,
        }
    }

    /// All track URIs of the album shown in the detail view.
    fn get_album_detail_uris(&self) -> (r: Option<Vec<String>>)
        ensures
            match r {
                Some(v) => detail_uris(self) == Some(strings_view(v@)),
                None => detail_uris(self) is None,
            },
    {
        let lib = match &self.library {
            Some(l) => l,
            None => return None,
        };
        let albums = self.shown_albums_exec(lib);
        let a = match self.selected_album_index {
            Some(a) => a,
            None => return None,
        };
        if a >= albums.len() {
            return None;
        }
        let album = albums[a];
        assert(album@ == shown_albums(*lib, self.selected_artist)[a as int]);
        let mut uris: Vec<String> = Vec::new();
        let mut i: usize = 0;
        while i < album.tracks.len()
            invariant
                i <= album.tracks@.len(),
                uris@.len() == i,
                forall|k: int| 0 <= k < i ==> (#[trigger] uris@[k])@ == album.tracks@[k].uri@,
            decreases album.tracks@.len() - i,
        {
            uris.push(album.tracks[i].uri.clone());
            i = i + 1;
        }
        assert(strings_view(uris@) =~= album@.tracks.map_values(|t: TrackView| t.uri));
        Some(uris)
    }
    /// The active view's list state, for the caller to change.
    pub fn active_list_state_mut(&mut self) -> (r: &mut ListState)
        ensures
            *r == active_list(old(self)),
            *final(self) == with_active_list(old(self), *final(r)),
    {
        match self.main_view {
            MainView::Artists => &mut self.artist_list_state,
            MainView::Albums => &mut self.album_list_state,
            MainView::Songs => &mut self.song_list_state,
            MainView::Playlists => &mut self.playlist_list_state,
            MainView::AlbumDetail => &mut self.detail_list_state,
        }
    }

    /// Advances the tick counter and drops the status message once it has expired.
    pub fn handle_tick(&mut self)
        requires
            old(self).tick_count < u64::MAX,
        ensures
            final(self).tick_count == old(self).tick_count + 1,
            status_expires(old(self).status, old(self).tick_count + 1) ==> final(self).status is None,
            !status_expires(old(self).status, old(self).tick_count + 1) ==> final(self).status
                == old(self).status,
            *final(self) == (App {
                tick_count: final(self).tick_count,
                status: final(self).status,
                ..*old(self)
            }),
            *final(self) == tick_once(*old(self)),
    {
        self.tick_count = self.tick_count + 1;
        let expired = match &self.status {
            Some(st) => self.tick_count >= st.expires_tick,
            None => false,
        };
        if expired {
            self.status = None;
        }
    }

    /// Applies an event from the player to the now-playing state; a new track drops
    /// the cached art of another track, an error becomes the status message.
    pub fn handle_player_event(&mut self, event: PlayerEvent)
        requires
            event is Error ==> old(self).tick_count + 20 <= u64::MAX,
        ensures
            event_applied(old(self), final(self), event),
    {
        match event {
            PlayerEvent::StateChanged(state) => {
                self.now_playing.state = Some(state);
            },
            PlayerEvent::TrackChanged(track) => {
                let same = match &self.art.current_uri {
                    Some(u) => str_eq(u.as_str(), track.uri.as_str()),
                    None => false,
                };
                if !same {
                    self.art.current_uri = Some(track.uri.clone());
                    self.art.has_art = false;
                    self.art.image_bytes = None;
                }
                self.now_playing.track = Some(track);
                self.now_playing.position_ms = 0;
                self.lyrics.lyrics = None;
                self.lyrics.current_line = 0;
                self.lyrics.scroll_offset = 0;
            },
            PlayerEvent::PositionUpdate(ms) => {
                self.now_playing.position_ms = ms;
                let line = match &self.lyrics.lyrics {
                    Some(Lyrics::Synced(lines)) => Some(line_at_exec(lines, ms)),
                    _ => None,
                };
                if let Some(l) = line {
                    self.lyrics.current_line = l;
                }
            },
            PlayerEvent::Error(msg) => {
                self.set_status(msg);
            },
            PlayerEvent::ModeChanged { shuffle, repeat } => {
                self.now_playing.shuffle = shuffle;
                self.now_playing.repeat = repeat;
            },
        }
    }

    /// Handles a click at terminal coordinates: focus moves to the region clicked,
    /// and a click on a navigation entry opens it.
    pub fn handle_mouse_click(&mut self, x: u16, y: u16, term_width: u16, term_height: u16)
        requires
            term_width * 30 <= u16::MAX,
        ensures
            click_applied(old(self), final(self), x, y, term_width, term_height),
    {
        let sidebar_width = term_width * 30 / 100;
        let now_playing_height = 3u16;
        let content_height = term_height.saturating_sub(now_playing_height);
        if y < content_height {
            if x < sidebar_width {
                self.focus = Focus::Sidebar;
                if y >= 1 && y <= 4 {
                    let nav_index = (y - 1) as usize;
                    if nav_index < 4 {
                        self.sidebar_nav_index = nav_index;
                        self.main_view = nav_index_to_view(nav_index);
                    }
                }
            } else {
                self.focus = Focus::Main;
            }
        }
    }

    /// Sets a status message that expires 20 ticks (about five seconds) from now.
    pub fn set_status(&mut self, text: String)
        requires
            old(self).tick_count + 20 <= u64::MAX,
        ensures
            final(self).status == Some(
                StatusMessage { text, expires_tick: (old(self).tick_count + 20) as u64 },
            ),
            *final(self) == (App { status: final(self).status, ..*old(self) }),
    {
        self.status = Some(StatusMessage { text, expires_tick: self.tick_count + 20 });
    }

    /// The sidebar's navigation labels.
    pub fn nav_items(&self) -> (r: &'static [&'static str])
        ensures
            r@.len() == nav_len(),
            r@[0]@ == "Artists"@,
            r@[1]@ == "Albums"@,
            r@[2]@ == "Songs"@,
            r@[3]@ == "Playlists"@,
    {
        let items: &'static [&'static str] = &["Artists", "Albums", "Songs", "Playlists"];
        items
    }

    /// Removes the queue entry at `index` (nothing happens past the end); a selection
    /// that falls off the end moves to the new last entry.
    pub fn remove_from_queue(&mut self, index: usize)
        requires
            index < old(self).queue.track_uris@.len() ==> index < old(self).queue.track_names@.len(),
        ensures
            index >= old(self).queue.track_uris@.len() ==> *final(self) == *old(self),
            index < old(self).queue.track_uris@.len() ==> {
                let n = old(self).queue.track_uris@.len() - 1;
                &&& final(self).queue.track_uris@ == old(self).queue.track_uris@.remove(index as int)
                &&& final(self).queue.track_names@ == old(self).queue.track_names@.remove(
                    index as int,
                )
                &&& final(self).queue.list_state == (match old(self).queue.list_state.sel() {
                    Some(s) => if s >= n && n > 0 {
                        ListState::with_sel(Some((n - 1) as usize))
                    } else {
                        old(self).queue.list_state
                    },
                    None => old(self).queue.list_state,
                })
                &&& *final(self) == App { queue: final(self).queue, ..*old(self) }
            },
    {
        if index < self.queue.track_uris.len() {
            self.queue.track_uris.remove(index);
            self.queue.track_names.remove(index);
            if let Some(selected) = self.queue.list_state.selected() {
                if selected >= self.queue.track_uris.len() && self.queue.track_uris.len() > 0 {
                    let last = self.queue.track_uris.len() - 1;
                    self.queue.list_state.select(Some(last));
                }
            }
        }
    }

    /// Exchanges two queue entries (nothing happens when either is past the end).
    pub fn reorder_queue(&mut self, from: usize, to: usize)
        requires
            from < old(self).queue.track_uris@.len() && to < old(self).queue.track_uris@.len() ==> from
                < old(self).queue.track_names@.len() && to < old(self).queue.track_names@.len(),
        ensures
            !(from < old(self).queue.track_uris@.len() && to < old(self).queue.track_uris@.len())
                ==> *final(self) == *old(self),
            from < old(self).queue.track_uris@.len() && to < old(self).queue.track_uris@.len() ==> {
                let u = old(self).queue.track_uris@;
                let m = old(self).queue.track_names@;
                &&& final(self).queue.track_uris@ == u.update(from as int, u[to as int]).update(
                    to as int,
                    u[from as int],
                )
                &&& final(self).queue.track_names@ == m.update(from as int, m[to as int]).update(
                    to as int,
                    m[from as int],
                )
                &&& *final(self) == App {
                    queue: QueueState {
                        track_uris: final(self).queue.track_uris,
                        track_names: final(self).queue.track_names,
                        ..old(self).queue
                    },
                    ..*old(self)
                }
            },
    {
        if from < self.queue.track_uris.len() && to < self.queue.track_uris.len() {
            swap_strings(&mut self.queue.track_uris, from, to);
            swap_strings(&mut self.queue.track_names, from, to);
        }
    }

    /// All queue URIs, in order (for loading into the player).
    pub fn queue_uris(&self) -> (r: Vec<String>)
        ensures
            r@ == self.queue.track_uris@,
    {
        crate::types::copy_strings(&self.queue.track_uris)
    }

    /// An extended M3U playlist of the queue: the header line, then the path of each
    /// queued URI on a line of its own.
    pub fn generate_m3u_content(&self) -> (s: String)
        ensures
            s@ == m3u_text(strings_view(self.queue.track_uris@)),
    {
        let mut content = String::new();
        content.append("#EXTM3U\n");
        let ghost uris = strings_view(self.queue.track_uris@);
        let mut i: usize = 0;
        while i < self.queue.track_uris.len()
            invariant
                i <= uris.len(),
                uris == strings_view(self.queue.track_uris@),
                content@ == m3u_text(uris.subrange(0, i as int)),
            decreases uris.len() - i,
        {
            let path = uri_to_path(self.queue.track_uris[i].as_str());
            content.append(path.as_str());
            push_char(&mut content, '\n');
            proof {
                let pre = uris.subrange(0, i as int + 1);
                assert(pre.drop_last() =~= uris.subrange(0, i as int));
                assert(pre.last() == uris[i as int]);
            }
            i = i + 1;
        }
        assert(uris.subrange(0, uris.len() as int) =~= uris);
        content
    }

    /// The player commands that carry out `action`; a seek also moves the shown
    /// position to the target.
    pub fn player_commands(&mut self, action: PlayerAction) -> (cmds: Vec<PlayerCommand>)
        requires
            action matches PlayerAction::Seek(d) ==> seek_in_range(old(self), d),
        ensures
            commands_view(cmds@) == action_commands(old(self), action@),
            action matches PlayerAction::Seek(d) ==> *final(self) == (App {
                now_playing: NowPlayingState {
                    position_ms: seek_position(
                        old(self).now_playing.position_ms,
                        d,
                        playing_length(old(self)),
                    ) as u64,
                    ..old(self).now_playing
                },
                ..*old(self)
            }),
            (action matches PlayerAction::Seek(_)) || *final(self) == *old(self),
    {
        let mut cmds: Vec<PlayerCommand> = Vec::new();
        let ghost a = action@;
        match action {
            PlayerAction::PlayPause => {
                let playing = match self.now_playing.state {
                    Some(PlaybackState::Playing) => true,
                    _ => false,
                };
                if playing {
                    cmds.push(PlayerCommand::Pause);
                } else {
                    cmds.push(PlayerCommand::Play);
                }
            },
            PlayerAction::Next => cmds.push(PlayerCommand::Next),
            PlayerAction::Previous => cmds.push(PlayerCommand::Previous),
            PlayerAction::Seek(delta) => {
                let len: i64 = match &self.now_playing.track {
                    Some(t) => t.length as i64,
                    None => 0,
                };
                let target: i64 = self.now_playing.position_ms as i64 + delta;
                let new_pos: i64 = if target < 0 {
                    0
                } else if target > len {
                    len
                } else {
                    target
                };
                let p = new_pos as u64;
                assert(p == seek_position(old(self).now_playing.position_ms, delta, playing_length(old(self))) as u64);
                cmds.push(PlayerCommand::Seek(p));
                self.now_playing.position_ms = p;
            },
            PlayerAction::PlayTrackUri(uri) => {
                let ghost u = uri@;
                let mut uris: Vec<String> = Vec::new();
                uris.push(uri);
                assert(strings_view(uris@) =~= seq![u]);
                cmds.push(PlayerCommand::LoadTrackUris(uris));
                cmds.push(PlayerCommand::Play);
            },
            PlayerAction::LoadTrackUris(uris) => {
                cmds.push(PlayerCommand::LoadTrackUris(uris));
                cmds.push(PlayerCommand::Play);
            },
            PlayerAction::ToggleShuffle => cmds.push(PlayerCommand::SetShuffle(!self.now_playing.shuffle)),
            PlayerAction::CycleRepeat => cmds.push(PlayerCommand::SetRepeat(self.now_playing.repeat.cycle())),
        }
        assert(commands_view(cmds@) =~= action_commands(old(self), a));
        cmds
    }

    /// Stores art that finished loading, if it belongs to the current track.
    pub fn apply_art_loaded(&mut self, uri: String, data: Option<Vec<u8>>)
        ensures
            art_is_for(old(self).art, uri@) ==> *final(self) == (App {
                art: ArtState { has_art: (data is Some), image_bytes: data, ..old(self).art },
                ..*old(self)
            }),
            !art_is_for(old(self).art, uri@) ==> *final(self) == *old(self),
    {
        let same = match &self.art.current_uri {
            Some(u) => str_eq(u.as_str(), uri.as_str()),
            None => false,
        };
        if same {
            self.art.has_art = data.is_some();
            self.art.image_bytes = data;
        }
    }

    /// Stores lyrics that finished loading, if they belong to the playing track.
    pub fn apply_lyrics_loaded(&mut self, uri: String, data: Option<Lyrics>)
        ensures
            (old(self).now_playing.track matches Some(t) && t.uri@ == uri@) ==> *final(self) == (
            App {
                lyrics: LyricsState { lyrics: data, current_line: 0, scroll_offset: 0, ..old(self).lyrics },
                ..*old(self)
            }),
            !(old(self).now_playing.track matches Some(t) && t.uri@ == uri@) ==> *final(self)
                == *old(self),
    {
        let same = match &self.now_playing.track {
            Some(t) => str_eq(t.uri.as_str(), uri.as_str()),
            None => false,
        };
        if same {
            self.lyrics.lyrics = data;
            self.lyrics.current_line = 0;
            self.lyrics.scroll_offset = 0;
        }
    }

    /// Installs a freshly scanned library and selects its first artist.
    pub fn apply_scan_complete(&mut self, library: Library)
        ensures
            *final(self) == (App {
                library: Some(library),
                scanning: false,
                artist_list_state: ListState::with_sel(Some(0)),
                ..*old(self)
            }),
    {
        self.library = Some(library);
        self.scanning = false;
        self.artist_list_state.select(Some(0));
    }
}

/// Tab moves the focus between the sidebar and the main panel: pressing it twice
/// outside the search overlay leaves everything as it was.
pub proof fn lemma_tab_twice(o: &App, f: &App, g: &App, r1: Option<ActionView>, r2: Option<ActionView>)
    requires
        o.focus != Focus::Search,
        global_post(o, f, KeyEvent { code: KeyCode::Tab, modifiers: KeyModifiers { bits: 0 }, kind: KeyEventKind::Press }, r1),
        global_post(f, g, KeyEvent { code: KeyCode::Tab, modifiers: KeyModifiers { bits: 0 }, kind: KeyEventKind::Press }, r2),
    ensures
        f.focus != o.focus,
        *g == *o,
        r1 is None && r2 is None,
{
}

/// The volume keys keep the volume between 0 and 100.
pub proof fn lemma_volume_keys_in_range(o: &App, f: &App, c: char, r: Option<ActionView>)
    requires
        o.now_playing.volume <= 100,
        c == '+' || c == '=' || c == '-',
        global_post(o, f, KeyEvent { code: KeyCode::Char(c), modifiers: KeyModifiers { bits: 0 }, kind: KeyEventKind::Press }, r),
    ensures
        f.now_playing.volume <= 100,
        c != '-' ==> f.now_playing.volume >= o.now_playing.volume,
        c == '-' ==> f.now_playing.volume <= o.now_playing.volume,
{
}

/// Exchanging the same two queue entries twice leaves the queue as it was.
pub proof fn lemma_swap_twice<T>(u: Seq<T>, from: int, to: int)
    requires
        0 <= from < u.len(),
        0 <= to < u.len(),
    ensures
        ({
            let w = u.update(from, u[to]).update(to, u[from]);
            w.update(from, w[to]).update(to, w[from])
        }) == u,
{
    let w = u.update(from, u[to]).update(to, u[from]);
    assert(w.update(from, w[to]).update(to, w[from]) =~= u);
}

/// Visualization display mode.
#[derive(Debug, Clone, Copy, PartialEq, Eq, Structural)]
pub enum VisualizerMode {
    Spectrum,
    Waveform,
}

impl VisualizerMode {
    /// The other mode.
    pub open spec fn toggled(self) -> VisualizerMode {
        match self {
            VisualizerMode::Spectrum => VisualizerMode::Waveform,
            VisualizerMode::Waveform => VisualizerMode::Spectrum,
        }
    }

    /// Toggles between modes.
    pub fn toggle(self) -> (r: VisualizerMode)
        ensures
            r == self.toggled(),
    {
        match self {
            VisualizerMode::Spectrum => VisualizerMode::Waveform,
            VisualizerMode::Waveform => VisualizerMode::Spectrum,
        }
    }
}

/// The front end after one tick: the counter advances and an expired status goes.
pub open spec fn tick_once(a: App) -> App {
    App {
        tick_count: (a.tick_count + 1) as u64,
        status: if status_expires(a.status, a.tick_count + 1) {
            None
        } else {
            a.status
        },
        ..a
    }
}

/// The front end after `k` ticks.
pub open spec fn ticked(a: App, k: nat) -> App
    decreases k,
{
    if k == 0 {
        a
    } else {
        tick_once(ticked(a, (k - 1) as nat))
    }
}

/// A status message set with `set_status` stays through the next 19 ticks and the
/// 20th tick clears it; ticking changes nothing else but the counter.
pub proof fn lemma_status_lifetime(a: App, k: nat)
    requires
        a.status matches Some(st) && st.expires_tick == a.tick_count + 20,
        a.tick_count + k <= u64::MAX,
    ensures
        ticked(a, k).tick_count == a.tick_count + k,
        k < 20 ==> ticked(a, k).status == a.status,
        k >= 20 ==> ticked(a, k).status is None,
        ticked(a, k) == (App { tick_count: ticked(a, k).tick_count, status: ticked(a, k).status, ..a }),
    decreases k,
{
    if k > 0 {
        lemma_status_lifetime(a, (k - 1) as nat);
    }
}

/// Toggling changes the mode, and toggling twice gives it back.
pub proof fn lemma_toggle_twice(m: VisualizerMode)
    ensures
        m.toggled() != m,
        m.toggled().toggled() == m,
{
}

} // verus!
