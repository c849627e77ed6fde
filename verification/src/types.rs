//! Shared data types: tracks, playlists, playback and repeat modes, player events
//! and commands.
use vstd::prelude::*;

verus! {

/// Metadata for a single audio track.
#[derive(Debug, Clone, PartialEq)]
pub struct Track {
    /// File URI (e.g., "file:///path/to/song.mp3")
    pub uri: String,
    /// Track title (falls back to filename if no tags)
    pub name: String,
    /// Artist names
    pub artists: Vec<String>,
    /// Album name
    pub album: String,
    /// Duration in milliseconds
    pub length: u64,
    /// Track number within album
    pub track_no: Option<u32>,
}

/// Copies a list of strings element by element.
pub fn copy_strings(v: &Vec<String>) -> (r: Vec<String>)
    ensures
        r@ == v@,
{
    let mut r: Vec<String> = Vec::new();
    let mut i: usize = 0;
    while i < v.len()
        invariant
            i <= v@.len(),
            r@ == v@.subrange(0, i as int),
        decreases v@.len() - i,
    {
        r.push(v[i].clone());
        i = i + 1;
        assert(r@ =~= v@.subrange(0, i as int));
    }
    assert(v@.subrange(0, v@.len() as int) =~= v@);
    r
}

/// Mathematical model of a [`Track`]: its strings as character sequences.
pub struct TrackView {
    pub uri: Seq<char>,
    pub name: Seq<char>,
    pub artists: Seq<Seq<char>>,
    pub album: Seq<char>,
    pub length: u64,
    pub track_no: Option<u32>,
}

/// The character sequences of a list of strings.
pub open spec fn strings_view(v: Seq<String>) -> Seq<Seq<char>> {
    v.map_values(|s: String| s@)
}

impl View for Track {
    type V = TrackView;

    open spec fn view(&self) -> TrackView {
        TrackView {
            uri: self.uri@,
            name: self.name@,
            artists: strings_view(self.artists@),
            album: self.album@,
            length: self.length,
            track_no: self.track_no,
        }
    }
}

/// The models of a list of tracks.
pub open spec fn tracks_view(v: Seq<Track>) -> Seq<TrackView> {
    v.map_values(|t: Track| t@)
}

/// Copies a list of tracks element by element.
pub fn copy_tracks(v: &Vec<Track>) -> (r: Vec<Track>)
    ensures
        tracks_view(r@) == tracks_view(v@),
{
    let mut r: Vec<Track> = Vec::new();
    let mut i: usize = 0;
    while i < v.len()
        invariant
            i <= v@.len(),
            r@.len() == i,
            forall|k: int| 0 <= k < i ==> (#[trigger] r@[k])@ == v@[k]@,
        decreases v@.len() - i,
    {
        r.push(v[i].duplicate());
        i = i + 1;
    }
    assert(tracks_view(r@) =~= tracks_view(v@));
    r
}

impl Track {
    /// A field-by-field copy of the track.
    pub fn duplicate(&self) -> (r: Track)
        ensures
            r@ == self@,
    {
        Track {
            uri: self.uri.clone(),
            name: self.name.clone(),
            artists: copy_strings(&self.artists),
            album: self.album.clone(),
            length: self.length,
            track_no: self.track_no,
        }
    }
}

/// Metadata about a playlist file.
#[derive(Debug, Clone, PartialEq)]
pub struct Playlist {
    /// File URI of the .m3u file
    pub uri: String,
    /// Playlist name (derived from filename)
    pub name: String,
    /// Number of tracks in the playlist
    pub track_count: usize,
}

/// Playback state of the player.
#[derive(Debug, Clone, Copy, PartialEq, Eq, Structural)]
pub enum PlaybackState {
    Stopped,
    Playing,
    Paused,
}

/// Repeat behaviour at the end of the queue.
#[derive(Debug, Clone, Copy, PartialEq, Eq, Structural)]
pub enum RepeatMode {
    /// Play through once and stop.
    Off,
    /// Wrap around to the first track.
    All,
    /// Replay the current track.
    One,
}

impl RepeatMode {
    /// The next mode in the cycle Off -> All -> One -> Off.
    pub open spec fn cycled(self) -> RepeatMode {
        match self {
            RepeatMode::Off => RepeatMode::All,
            RepeatMode::All => RepeatMode::One,
            RepeatMode::One => RepeatMode::Off,
        }
    }

    /// Cycle to the next repeat mode: Off -> All -> One -> Off.
    pub fn cycle(self) -> (r: RepeatMode)
        ensures
            r == self.cycled(),
    {
        match self {
            RepeatMode::Off => RepeatMode::All,
            RepeatMode::All => RepeatMode::One,
            RepeatMode::One => RepeatMode::Off,
        }
    }
}

/// Cycling the repeat mode three times returns to the starting mode.
pub proof fn lemma_repeat_cycle_period(m: RepeatMode)
    ensures
        m.cycled().cycled().cycled() == m,
        m.cycled() != m,
{
}

/// Events emitted by the player to registered callbacks.
#[derive(Debug, Clone)]
pub enum PlayerEvent {
    StateChanged(PlaybackState),
    TrackChanged(Track),
    PositionUpdate(u64),
    Error(String),
    ModeChanged { shuffle: bool, repeat: RepeatMode },
}

/// Model of a [`PlayerEvent`].
pub enum EventView {
    StateChanged(PlaybackState),
    TrackChanged(TrackView),
    PositionUpdate(u64),
    Error(Seq<char>),
    ModeChanged { shuffle: bool, repeat: RepeatMode },
}

impl View for PlayerEvent {
    type V = EventView;

    open spec fn view(&self) -> EventView {
        match self {
            PlayerEvent::StateChanged(s) => EventView::StateChanged(*s),
            PlayerEvent::TrackChanged(t) => EventView::TrackChanged(t@),
            PlayerEvent::PositionUpdate(ms) => EventView::PositionUpdate(*ms),
            PlayerEvent::Error(m) => EventView::Error(m@),
            PlayerEvent::ModeChanged { shuffle, repeat } => EventView::ModeChanged {
                shuffle: *shuffle,
                repeat: *repeat,
            },
        }
    }
}

/// Commands sent to the player's command thread.
#[derive(Debug)]
pub enum PlayerCommand {
    Play,
    Pause,
    Stop,
    Next,
    Previous,
    Seek(u64),
    SetVolume(u8),
    LoadTrackUris(Vec<String>),
    ClearTracklist,
    SetShuffle(bool),
    SetRepeat(RepeatMode),
    Shutdown,
}

/// Model of a [`PlayerCommand`].
pub enum CommandView {
    Play,
    Pause,
    Stop,
    Next,
    Previous,
    Seek(u64),
    SetVolume(u8),
    LoadTrackUris(Seq<Seq<char>>),
    ClearTracklist,
    SetShuffle(bool),
    SetRepeat(RepeatMode),
    Shutdown,
}

impl View for PlayerCommand {
    type V = CommandView;

    open spec fn view(&self) -> CommandView {
        match self {
            PlayerCommand::Play => CommandView::Play,
            PlayerCommand::Pause => CommandView::Pause,
            PlayerCommand::Stop => CommandView::Stop,
            PlayerCommand::Next => CommandView::Next,
            PlayerCommand::Previous => CommandView::Previous,
            PlayerCommand::Seek(ms) => CommandView::Seek(*ms),
            PlayerCommand::SetVolume(v) => CommandView::SetVolume(*v),
            PlayerCommand::LoadTrackUris(u) => CommandView::LoadTrackUris(strings_view(u@)),
            PlayerCommand::ClearTracklist => CommandView::ClearTracklist,
            PlayerCommand::SetShuffle(on) => CommandView::SetShuffle(*on),
            PlayerCommand::SetRepeat(m) => CommandView::SetRepeat(*m),
            PlayerCommand::Shutdown => CommandView::Shutdown,
        }
    }
}

/// The models of a list of commands.
pub open spec fn commands_view(v: Seq<PlayerCommand>) -> Seq<CommandView> {
    v.map_values(|c: PlayerCommand| c@)
}

} // verus!
