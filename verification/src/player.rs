//! The player's decisions: the state it shares with callers, how the command loop
//! answers commands and decoder events, and how the decoder loop answers control
//! messages and packets. The threads, channels, audio device and decoder that carry
//! these decisions out stand outside the library and perform the returned effects.
use vstd::prelude::*;
use crate::text::owned;
use crate::tracklist::{is_index_permutation, Tracklist};
use crate::types::{EventView, PlaybackState, PlayerCommand, PlayerEvent, RepeatMode, Track};

verus! {

/// Configuration for creating a player.
pub struct PlayerConfig {
    pub alsa_device: String,
    pub music_dirs: Vec<String>,
}

/// The number that stands for a playback state in [`SharedState`].
pub open spec fn state_code(s: PlaybackState) -> u8 {
    match s {
        PlaybackState::Stopped => 0,
        PlaybackState::Playing => 1,
        PlaybackState::Paused => 2,
    }
}

/// The playback state a stored number stands for (unknown numbers read as stopped).
pub open spec fn code_state(v: u8) -> PlaybackState {
    if v == 1 {
        PlaybackState::Playing
    } else if v == 2 {
        PlaybackState::Paused
    } else {
        PlaybackState::Stopped
    }
}

/// What the command loop publishes for callers: the encoded playback state, the
/// current track and the playback position.
#[derive(Debug)]
pub struct SharedState {
    /// Encoded playback state: 0 = stopped, 1 = playing, 2 = paused.
    pub playback_state: u8,
    pub current_track: Option<Track>,
    pub time_position_ms: u64,
}

impl SharedState {
    pub fn new() -> (s: SharedState)
        ensures
            s.playback_state == 0,
            code_state(s.playback_state) == PlaybackState::Stopped,
            s.current_track is None,
            s.time_position_ms == 0,
    {
        SharedState { playback_state: 0, current_track: None, time_position_ms: 0 }
    }

    pub fn get_playback_state(&self) -> (s: PlaybackState)
        ensures
            s == code_state(self.playback_state),
    {
        match self.playback_state {
            1 => PlaybackState::Playing,
            2 => PlaybackState::Paused,
            _ => PlaybackState::Stopped,
        }
    }

    pub fn set_playback_state(&mut self, state: PlaybackState)
        ensures
            *final(self) == (SharedState { playback_state: state_code(state), ..*old(self) }),
    {
        let val: u8 = match state {
            PlaybackState::Stopped => 0,
            PlaybackState::Playing => 1,
            PlaybackState::Paused => 2,
        };
        self.playback_state = val;
    }
}

/// The lower-case name of a playback state.
pub fn state_name(state: PlaybackState) -> (s: &'static str)
    ensures
        s@ == (match state {
            PlaybackState::Playing => "playing"@,
            PlaybackState::Paused => "paused"@,
            PlaybackState::Stopped => "stopped"@,
        }),
{
    match state {
        PlaybackState::Playing => "playing",
        PlaybackState::Paused => "paused",
        PlaybackState::Stopped => "stopped",
    }
}

/// Reading the state back gives the state that was stored.
pub proof fn lemma_state_code_roundtrip(s: PlaybackState)
    ensures
        code_state(state_code(s)) == s,
{
}

/// `s` with the playback state set to `st`.
pub open spec fn with_state(s: SharedState, st: PlaybackState) -> SharedState {
    SharedState { playback_state: state_code(st), ..s }
}

/// The shared state of a stopped player: no track, position zero.
pub open spec fn is_cleared(s: SharedState) -> bool {
    &&& s.playback_state == state_code(PlaybackState::Stopped)
    &&& s.current_track is None
    &&& s.time_position_ms == 0
}

/// Control messages from the command loop to the decoder.
#[derive(Debug, Clone, Copy, PartialEq, Eq, Structural)]
pub enum DecodeControl {
    Pause,
    Resume,
    Seek(u64),
    Stop,
}

/// Events from the decoder to the command loop.
#[derive(Debug)]
pub enum InternalEvent {
    TrackChanged(Track),
    Position(u64),
    TrackEnded,
    /// The decoder failed to open or decode the track and exited.
    DecodeFailed(String),
    Error(String),
}

/// What the command loop asks of the threads and devices around it, in order.
#[derive(Debug)]
pub enum Effect {
    /// Send `Stop` to the running decoder and forget it.
    StopDecode,
    /// Drop the audio that is buffered for output.
    ClearBuffer,
    /// Start a decoder on this URI; it becomes the running decoder.
    StartDecode(String),
    /// Forget the running decoder without stopping it, so that its audio drains.
    ReleaseDecode,
    /// Send a control message to the running decoder.
    Control(DecodeControl),
    /// Set the mixer's volume.
    SetVolume(u8),
    /// Call the registered callbacks with this event.
    Emit(PlayerEvent),
}

/// Model of an [`Effect`].
pub enum EffectView {
    StopDecode,
    ClearBuffer,
    StartDecode(Seq<char>),
    ReleaseDecode,
    Control(DecodeControl),
    SetVolume(u8),
    Emit(EventView),
}

impl View for Effect {
    type V = EffectView;

    open spec fn view(&self) -> EffectView {
        match self {
            Effect::StopDecode => EffectView::StopDecode,
            Effect::ClearBuffer => EffectView::ClearBuffer,
            Effect::StartDecode(u) => EffectView::StartDecode(u@),
            Effect::ReleaseDecode => EffectView::ReleaseDecode,
            Effect::Control(c) => EffectView::Control(*c),
            Effect::SetVolume(v) => EffectView::SetVolume(*v),
            Effect::Emit(e) => EffectView::Emit(e@),
        }
    }
}

/// The models of a list of effects.
pub open spec fn effects_view(v: Seq<Effect>) -> Seq<EffectView> {
    v.map_values(|e: Effect| e@)
}

/// Effects of stopping the decoder: stop the running one, if any, then drop the buffer.
pub open spec fn stop_fx(decoding: bool) -> Seq<EffectView> {
    if decoding {
        seq![EffectView::StopDecode, EffectView::ClearBuffer]
    } else {
        seq![EffectView::ClearBuffer]
    }
}

/// Effects of starting a decoder on `uri`.
pub open spec fn start_fx(uri: Seq<char>) -> Seq<EffectView> {
    seq![EffectView::ClearBuffer, EffectView::StartDecode(uri)]
}

/// Effect of announcing a new playback state.
pub open spec fn state_fx(s: PlaybackState) -> Seq<EffectView> {
    seq![EffectView::Emit(EventView::StateChanged(s))]
}

/// The tracklist moved as `Tracklist::next` moves it.
pub open spec fn next_transition(o: Tracklist, n: Tracklist) -> bool {
    &&& n.wf()
    &&& (o.next_target() is None ==> n == o)
    &&& (o.next_target() is Some && !o.next_reshuffles() ==> n == o.advanced())
    &&& (o.next_reshuffles() ==> n.reshuffled_from(o))
}

/// The tracklist moved as `Tracklist::previous` moves it.
pub open spec fn previous_transition(o: Tracklist, n: Tracklist) -> bool {
    &&& n.wf()
    &&& (o.previous_target() is None ==> n == o)
    &&& (o.previous_target() is Some ==> n == o.retreated())
}

/// The tracklist was loaded with `uris` as `Tracklist::load` loads it.
pub open spec fn load_transition(o: Tracklist, uris: Seq<Seq<char>>, n: Tracklist) -> bool {
    &&& n.wf()
    &&& n.uris() == uris
    &&& n.cur() == (if uris.len() == 0 {
        None
    } else {
        Some(0usize)
    })
    &&& n.shuffle_on() == o.shuffle_on()
    &&& n.repeat_mode() == o.repeat_mode()
    &&& (o.shuffle_on() ==> (if uris.len() == 0 {
        n.order().len() == 0 && n.position() is None
    } else {
        &&& is_index_permutation(n.order(), uris.len())
        &&& n.order()[0] == 0
        &&& n.position() == Some(0usize)
    }))
}

/// The tracklist was emptied as `Tracklist::clear` empties it.
pub open spec fn clear_transition(o: Tracklist, n: Tracklist) -> bool {
    &&& n.wf()
    &&& n.uris().len() == 0
    &&& n.cur() is None
    &&& n.order().len() == 0
    &&& n.position() is None
    &&& n.shuffle_on() == o.shuffle_on()
    &&& n.repeat_mode() == o.repeat_mode()
}

/// The shuffle flag was set to `on` as `Tracklist::set_shuffle` sets it.
pub open spec fn shuffle_transition(o: Tracklist, on: bool, n: Tracklist) -> bool {
    &&& n.wf()
    &&& n.shuffle_on() == on
    &&& n.uris() == o.uris()
    &&& n.cur() == o.cur()
    &&& n.repeat_mode() == o.repeat_mode()
    &&& (on == o.shuffle_on() ==> n == o)
    &&& (on && !o.shuffle_on() ==> n.reshuffled_from(o.with_shuffle_flag()))
    &&& (!on ==> n.order().len() == 0 && n.position() is None)
}

/// The command loop's own state: the queue and whether a decoder is running.
pub struct CommandLoop {
    tracklist: Tracklist,
    decoding: bool,
}

/// Stopping: the decoder stops, the state becomes stopped, track and position clear.
pub open spec fn stop_post(
    o: CommandLoop,
    n: CommandLoop,
    ns: SharedState,
    fx: Seq<EffectView>,
) -> bool {
    &&& n.tracks() == o.tracks()
    &&& !n.is_decoding()
    &&& is_cleared(ns)
    &&& fx == stop_fx(o.is_decoding()) + state_fx(PlaybackState::Stopped)
}

/// Effect of a command on the loop, the shared state, and what it asks for.
pub open spec fn command_post(
    o: CommandLoop,
    os: SharedState,
    cmd: PlayerCommand,
    n: CommandLoop,
    ns: SharedState,
    fx: Seq<EffectView>,
) -> bool {
    let t = o.tracks();
    match cmd {
        PlayerCommand::Play => match code_state(os.playback_state) {
            PlaybackState::Stopped => match t.cur() {
                Some(c) => {
                    &&& n.tracks() == t
                    &&& n.is_decoding()
                    &&& ns == with_state(os, PlaybackState::Playing)
                    &&& fx == start_fx(t.uris()[c as int]) + state_fx(PlaybackState::Playing)
                },
                None => n == o && ns == os && fx.len() == 0,
            },
            PlaybackState::Paused => {
                &&& n == o
                &&& ns == with_state(os, PlaybackState::Playing)
                &&& fx == (if o.is_decoding() {
                    seq![EffectView::Control(DecodeControl::Resume)]
                } else {
                    Seq::empty()
                }) + state_fx(PlaybackState::Playing)
            },
            PlaybackState::Playing => n == o && ns == os && fx.len() == 0,
        },
        PlayerCommand::Pause => if code_state(os.playback_state) == PlaybackState::Playing {
            &&& n == o
            &&& ns == with_state(os, PlaybackState::Paused)
            &&& fx == (if o.is_decoding() {
                seq![EffectView::Control(DecodeControl::Pause)]
            } else {
                Seq::empty()
            }) + state_fx(PlaybackState::Paused)
        } else {
            n == o && ns == os && fx.len() == 0
        },
        PlayerCommand::Stop => stop_post(o, n, ns, fx),
        PlayerCommand::Next => match t.next_target() {
            Some(i) => {
                &&& next_transition(t, n.tracks())
                &&& n.is_decoding()
                &&& ns == with_state(os, PlaybackState::Playing)
                &&& fx == stop_fx(o.is_decoding()) + start_fx(t.uris()[i as int]) + state_fx(
                    PlaybackState::Playing,
                )
            },
            None => stop_post(o, n, ns, fx),
        },
        PlayerCommand::Previous => match t.previous_target() {
            Some(i) => {
                &&& previous_transition(t, n.tracks())
                &&& n.is_decoding()
                &&& ns == with_state(os, PlaybackState::Playing)
                &&& fx == stop_fx(o.is_decoding()) + start_fx(t.uris()[i as int]) + state_fx(
                    PlaybackState::Playing,
                )
            },
            None => n == o && ns == os && fx.len() == 0,
        },
        PlayerCommand::Seek(ms) => {
            &&& n == o
            &&& ns == os
            &&& fx == (if o.is_decoding() {
                seq![EffectView::ClearBuffer, EffectView::Control(DecodeControl::Seek(ms))]
            } else {
                Seq::empty()
            })
        },
        PlayerCommand::SetVolume(v) => n == o && ns == os && fx == seq![EffectView::SetVolume(v)],
        PlayerCommand::LoadTrackUris(uris) => {
            &&& load_transition(t, uris@.map_values(|s: String| s@), n.tracks())
            &&& !n.is_decoding()
            &&& is_cleared(ns)
            &&& fx == stop_fx(o.is_decoding()) + state_fx(PlaybackState::Stopped)
        },
        PlayerCommand::ClearTracklist => {
            &&& clear_transition(t, n.tracks())
            &&& !n.is_decoding()
            &&& is_cleared(ns)
            &&& fx == stop_fx(o.is_decoding()) + state_fx(PlaybackState::Stopped)
        },
        PlayerCommand::SetShuffle(on) => {
            &&& shuffle_transition(t, on, n.tracks())
            &&& n.is_decoding() == o.is_decoding()
            &&& ns == os
            &&& fx == seq![
                EffectView::Emit(EventView::ModeChanged { shuffle: on, repeat: t.repeat_mode() }),
            ]
        },
        PlayerCommand::SetRepeat(m) => {
            &&& n.tracks() == t.with_repeat(m)
            &&& n.is_decoding() == o.is_decoding()
            &&& ns == os
            &&& fx == seq![
                EffectView::Emit(EventView::ModeChanged { shuffle: t.shuffle_on(), repeat: m }),
            ]
        },
        PlayerCommand::Shutdown => {
            &&& n.tracks() == t
            &&& !n.is_decoding()
            &&& ns == os
            &&& fx == stop_fx(o.is_decoding())
        },
    }
}

/// Effect of a decoder event on the loop, the shared state, and what it asks for.
pub open spec fn event_post(
    o: CommandLoop,
    os: SharedState,
    ev: InternalEvent,
    n: CommandLoop,
    ns: SharedState,
    fx: Seq<EffectView>,
) -> bool {
    let t = o.tracks();
    match ev {
        InternalEvent::TrackChanged(track) => {
            &&& n == o
            &&& ns.playback_state == os.playback_state
            &&& ns.time_position_ms == os.time_position_ms
            &&& ns.current_track matches Some(c) && c@ == track@
            &&& fx == seq![EffectView::Emit(EventView::TrackChanged(track@))]
        },
        InternalEvent::Position(ms) => {
            &&& n == o
            &&& ns == SharedState { time_position_ms: ms, ..os }
            &&& fx == seq![EffectView::Emit(EventView::PositionUpdate(ms))]
        },
        InternalEvent::TrackEnded => match t.next_target() {
            Some(i) => {
                &&& next_transition(t, n.tracks())
                &&& n.is_decoding()
                &&& ns == os
                &&& fx == stop_fx(o.is_decoding()) + start_fx(t.uris()[i as int])
            },
            None => {
                &&& n.tracks() == t
                &&& !n.is_decoding()
                &&& is_cleared(ns)
                &&& fx == seq![EffectView::ReleaseDecode] + state_fx(PlaybackState::Stopped)
            },
        },
        InternalEvent::DecodeFailed(msg) => {
            &&& n.tracks() == t
            &&& !n.is_decoding()
            &&& is_cleared(ns)
            &&& fx == seq![EffectView::ReleaseDecode] + state_fx(PlaybackState::Stopped) + seq![
                EffectView::Emit(EventView::Error(msg@)),
            ]
        },
        InternalEvent::Error(msg) => {
            &&& n == o
            &&& ns == os
            &&& fx == seq![EffectView::Emit(EventView::Error(msg@))]
        },
    }
}

impl CommandLoop {
    /// The queue.
    pub closed spec fn tracks(&self) -> Tracklist {
        self.tracklist
    }

    /// Whether a decoder is running.
    pub closed spec fn is_decoding(&self) -> bool {
        self.decoding
    }

    /// The internal invariant.
    pub open spec fn wf(&self) -> bool {
        self.tracks().wf()
    }

    /// A loop with an empty queue and no decoder.
    pub fn new() -> (c: CommandLoop)
        ensures
            c.wf(),
            c.tracks().uris().len() == 0,
            c.tracks().cur() is None,
            !c.tracks().shuffle_on(),
            c.tracks().repeat_mode() == RepeatMode::Off,
            !c.is_decoding(),
    {
        CommandLoop { tracklist: Tracklist::new(), decoding: false }
    }

    /// The queue.
    pub fn tracklist(&self) -> (t: &Tracklist)
        ensures
            *t == self.tracks(),
    {
        &self.tracklist
    }

    /// Whether a decoder is running.
    pub fn decoding(&self) -> (b: bool)
        ensures
            b == self.is_decoding(),
    {
        self.decoding
    }

    fn push_effect(fx: &mut Vec<Effect>, e: Effect)
        ensures
            effects_view(final(fx)@) == effects_view(old(fx)@).push(e@),
    {
        fx.push(e);
        assert(effects_view(fx@) =~= effects_view(old(fx)@).push(e@));
    }

    /// Stops the running decoder, if any, and drops the buffered audio.
    fn stop_decode(&mut self, fx: &mut Vec<Effect>)
        ensures
            final(self).tracks() == old(self).tracks(),
            !final(self).is_decoding(),
            effects_view(final(fx)@) == effects_view(old(fx)@) + stop_fx(old(self).is_decoding()),
    {
        if self.decoding {
            Self::push_effect(fx, Effect::StopDecode);
            self.decoding = false;
        }
        Self::push_effect(fx, Effect::ClearBuffer);
        assert(effects_view(fx@) =~= effects_view(old(fx)@) + stop_fx(old(self).is_decoding()));
    }

    /// Drops the buffered audio and starts a decoder on `uri`.
    fn start_decode(&mut self, uri: String, fx: &mut Vec<Effect>)
        ensures
            final(self).tracks() == old(self).tracks(),
            final(self).is_decoding(),
            effects_view(final(fx)@) == effects_view(old(fx)@) + start_fx(uri@),
    {
        Self::push_effect(fx, Effect::ClearBuffer);
        let ghost u = uri@;
        Self::push_effect(fx, Effect::StartDecode(uri));
        self.decoding = true;
        assert(effects_view(fx@) =~= effects_view(old(fx)@) + start_fx(u));
    }

    /// Stores and announces a new playback state.
    fn set_state(shared: &mut SharedState, state: PlaybackState, fx: &mut Vec<Effect>)
        ensures
            *final(shared) == with_state(*old(shared), state),
            effects_view(final(fx)@) == effects_view(old(fx)@) + state_fx(state),
    {
        shared.set_playback_state(state);
        Self::push_effect(fx, Effect::Emit(PlayerEvent::StateChanged(state)));
        assert(effects_view(fx@) =~= effects_view(old(fx)@) + state_fx(state));
    }

    /// Clears the published track and position.
    fn clear_shared(shared: &mut SharedState)
        ensures
            final(shared).playback_state == old(shared).playback_state,
            final(shared).current_track is None,
            final(shared).time_position_ms == 0,
    {
        shared.current_track = None;
        shared.time_position_ms = 0;
    }

    fn handle_stop(&mut self, shared: &mut SharedState, fx: &mut Vec<Effect>)
        requires
            old(self).wf(),
        ensures
            final(self).wf(),
            final(self).tracks() == old(self).tracks(),
            !final(self).is_decoding(),
            is_cleared(*final(shared)),
            effects_view(final(fx)@) == effects_view(old(fx)@) + stop_fx(old(self).is_decoding())
                + state_fx(PlaybackState::Stopped),
    {
        let ghost f0 = effects_view(fx@);
        self.stop_decode(fx);
        Self::set_state(shared, PlaybackState::Stopped, fx);
        Self::clear_shared(shared);
        assert(effects_view(fx@) =~= f0 + stop_fx(old(self).is_decoding()) + state_fx(
            PlaybackState::Stopped,
        ));
    }

    fn handle_play(&mut self, shared: &mut SharedState, fx: &mut Vec<Effect>)
        requires
            old(self).wf(),
            effects_view(old(fx)@).len() == 0,
        ensures
            final(self).wf(),
            command_post(
                *old(self),
                *old(shared),
                PlayerCommand::Play,
                *final(self),
                *final(shared),
                effects_view(final(fx)@),
            ),
    {
        match shared.get_playback_state() {
            PlaybackState::Stopped => {
                let uri = match self.tracklist.current() {
                    Some(u) => owned(u),
                    None => return,
                };
                self.start_decode(uri, fx);
                Self::set_state(shared, PlaybackState::Playing, fx);
                assert(effects_view(fx@) =~= start_fx(
                    old(self).tracks().uris()[old(self).tracks().cur()->0 as int],
                ) + state_fx(PlaybackState::Playing));
            },
            PlaybackState::Paused => {
                if self.decoding {
                    Self::push_effect(fx, Effect::Control(DecodeControl::Resume));
                }
                Self::set_state(shared, PlaybackState::Playing, fx);
                assert(effects_view(fx@) =~= (if old(self).is_decoding() {
                    seq![EffectView::Control(DecodeControl::Resume)]
                } else {
                    Seq::empty()
                }) + state_fx(PlaybackState::Playing));
            },
            PlaybackState::Playing => {},
        }
    }

    fn handle_pause(&mut self, shared: &mut SharedState, fx: &mut Vec<Effect>)
        requires
            old(self).wf(),
            effects_view(old(fx)@).len() == 0,
        ensures
            final(self).wf(),
            command_post(
                *old(self),
                *old(shared),
                PlayerCommand::Pause,
                *final(self),
                *final(shared),
                effects_view(final(fx)@),
            ),
    {
        if shared.get_playback_state() == PlaybackState::Playing {
            if self.decoding {
                Self::push_effect(fx, Effect::Control(DecodeControl::Pause));
            }
            Self::set_state(shared, PlaybackState::Paused, fx);
            assert(effects_view(fx@) =~= (if old(self).is_decoding() {
                seq![EffectView::Control(DecodeControl::Pause)]
            } else {
                Seq::empty()
            }) + state_fx(PlaybackState::Paused));
        }
    }

    fn handle_next(&mut self, shared: &mut SharedState, fx: &mut Vec<Effect>)
        requires
            old(self).wf(),
            effects_view(old(fx)@).len() == 0,
        ensures
            final(self).wf(),
            command_post(
                *old(self),
                *old(shared),
                PlayerCommand::Next,
                *final(self),
                *final(shared),
                effects_view(final(fx)@),
            ),
    {
        let next = match self.tracklist.next() {
            Some(u) => Some(owned(u)),
            None => None,
        };
        match next {
            Some(uri) => {
                let ghost u = uri@;
                self.stop_decode(fx);
                self.start_decode(uri, fx);
                Self::set_state(shared, PlaybackState::Playing, fx);
                assert(effects_view(fx@) =~= stop_fx(old(self).is_decoding()) + start_fx(u)
                    + state_fx(PlaybackState::Playing));
            },
            None => {
                self.handle_stop(shared, fx);
                assert(effects_view(fx@) =~= stop_fx(old(self).is_decoding()) + state_fx(
                    PlaybackState::Stopped,
                ));
            },
        }
    }

    fn handle_previous(&mut self, shared: &mut SharedState, fx: &mut Vec<Effect>)
        requires
            old(self).wf(),
            effects_view(old(fx)@).len() == 0,
        ensures
            final(self).wf(),
            command_post(
                *old(self),
                *old(shared),
                PlayerCommand::Previous,
                *final(self),
                *final(shared),
                effects_view(final(fx)@),
            ),
    {
        let prev = match self.tracklist.previous() {
            Some(u) => Some(owned(u)),
            None => None,
        };
        if let Some(uri) = prev {
            let ghost u = uri@;
            self.stop_decode(fx);
            self.start_decode(uri, fx);
            Self::set_state(shared, PlaybackState::Playing, fx);
            assert(effects_view(fx@) =~= stop_fx(old(self).is_decoding()) + start_fx(u) + state_fx(
                PlaybackState::Playing,
            ));
        }
    }

    /// Answers a command: updates the queue and the shared state and returns what the
    /// threads around the loop must do, in order.
    pub fn handle_command(&mut self, shared: &mut SharedState, cmd: PlayerCommand) -> (fx: Vec<
        Effect,
    >)
        requires
            old(self).wf(),
        ensures
            final(self).wf(),
            command_post(*old(self), *old(shared), cmd, *final(self), *final(shared), effects_view(fx@)),
    {
        let mut fx: Vec<Effect> = Vec::new();
        assert(effects_view(fx@) =~= Seq::<EffectView>::empty());
        match cmd {
            PlayerCommand::Play => self.handle_play(shared, &mut fx),
            PlayerCommand::Pause => self.handle_pause(shared, &mut fx),
            PlayerCommand::Stop => {
                self.handle_stop(shared, &mut fx);
                assert(effects_view(fx@) =~= stop_fx(old(self).is_decoding()) + state_fx(
                    PlaybackState::Stopped,
                ));
            },
            PlayerCommand::Next => self.handle_next(shared, &mut fx),
            PlayerCommand::Previous => self.handle_previous(shared, &mut fx),
            PlayerCommand::Seek(ms) => {
                if self.decoding {
                    Self::push_effect(&mut fx, Effect::ClearBuffer);
                    Self::push_effect(&mut fx, Effect::Control(DecodeControl::Seek(ms)));
                    assert(effects_view(fx@) =~= seq![
                        EffectView::ClearBuffer,
                        EffectView::Control(DecodeControl::Seek(ms)),
                    ]);
                }
            },
            PlayerCommand::SetVolume(v) => {
                Self::push_effect(&mut fx, Effect::SetVolume(v));
                assert(effects_view(fx@) =~= seq![EffectView::SetVolume(v)]);
            },
            PlayerCommand::LoadTrackUris(uris) => {
                self.handle_stop(shared, &mut fx);
                self.tracklist.load(uris);
                assert(effects_view(fx@) =~= stop_fx(old(self).is_decoding()) + state_fx(
                    PlaybackState::Stopped,
                ));
            },
            PlayerCommand::ClearTracklist => {
                self.handle_stop(shared, &mut fx);
                self.tracklist.clear();
                assert(effects_view(fx@) =~= stop_fx(old(self).is_decoding()) + state_fx(
                    PlaybackState::Stopped,
                ));
            },
            PlayerCommand::SetShuffle(on) => {
                self.tracklist.set_shuffle(on);
                let shuffle = self.tracklist.get_shuffle();
                let repeat = self.tracklist.get_repeat();
                Self::push_effect(&mut fx, Effect::Emit(PlayerEvent::ModeChanged { shuffle, repeat }));
                assert(effects_view(fx@) =~= seq![
                    EffectView::Emit(
                        EventView::ModeChanged { shuffle: on, repeat: old(self).tracks().repeat_mode() },
                    ),
                ]);
            },
            PlayerCommand::SetRepeat(mode) => {
                self.tracklist.set_repeat(mode);
                let shuffle = self.tracklist.get_shuffle();
                let repeat = self.tracklist.get_repeat();
                Self::push_effect(&mut fx, Effect::Emit(PlayerEvent::ModeChanged { shuffle, repeat }));
                assert(effects_view(fx@) =~= seq![
                    EffectView::Emit(
                        EventView::ModeChanged { shuffle: old(self).tracks().shuffle_on(), repeat: mode },
                    ),
                ]);
            },
            PlayerCommand::Shutdown => {
                self.stop_decode(&mut fx);
                assert(effects_view(fx@) =~= stop_fx(old(self).is_decoding()));
            },
        }
        fx
    }

    /// Answers an event from the decoder.
    pub fn handle_event(&mut self, shared: &mut SharedState, event: InternalEvent) -> (fx: Vec<
        Effect,
    >)
        requires
            old(self).wf(),
        ensures
            final(self).wf(),
            event_post(*old(self), *old(shared), event, *final(self), *final(shared), effects_view(fx@)),
    {
        let mut fx: Vec<Effect> = Vec::new();
        assert(effects_view(fx@) =~= Seq::<EffectView>::empty());
        match event {
            InternalEvent::TrackChanged(track) => {
                shared.current_track = Some(track.duplicate());
                let ghost t = track@;
                Self::push_effect(&mut fx, Effect::Emit(PlayerEvent::TrackChanged(track)));
                assert(effects_view(fx@) =~= seq![EffectView::Emit(EventView::TrackChanged(t))]);
            },
            InternalEvent::Position(ms) => {
                shared.time_position_ms = ms;
                Self::push_effect(&mut fx, Effect::Emit(PlayerEvent::PositionUpdate(ms)));
                assert(effects_view(fx@) =~= seq![EffectView::Emit(EventView::PositionUpdate(ms))]);
            },
            InternalEvent::TrackEnded => {
                let next = match self.tracklist.next() {
                    Some(u) => Some(owned(u)),
                    None => None,
                };
                match next {
                    Some(uri) => {
                        let ghost u = uri@;
                        self.stop_decode(&mut fx);
                        self.start_decode(uri, &mut fx);
                        assert(effects_view(fx@) =~= stop_fx(old(self).is_decoding()) + start_fx(u));
                    },
                    None => {
                        Self::push_effect(&mut fx, Effect::ReleaseDecode);
                        self.decoding = false;
                        Self::set_state(shared, PlaybackState::Stopped, &mut fx);
                        Self::clear_shared(shared);
                        assert(effects_view(fx@) =~= seq![EffectView::ReleaseDecode] + state_fx(
                            PlaybackState::Stopped,
                        ));
                    },
                }
            },
            InternalEvent::DecodeFailed(msg) => {
                Self::push_effect(&mut fx, Effect::ReleaseDecode);
                self.decoding = false;
                Self::set_state(shared, PlaybackState::Stopped, &mut fx);
                Self::clear_shared(shared);
                let ghost m = msg@;
                Self::push_effect(&mut fx, Effect::Emit(PlayerEvent::Error(msg)));
                assert(effects_view(fx@) =~= seq![EffectView::ReleaseDecode] + state_fx(
                    PlaybackState::Stopped,
                ) + seq![EffectView::Emit(EventView::Error(m))]);
            },
            InternalEvent::Error(msg) => {
                let ghost m = msg@;
                Self::push_effect(&mut fx, Effect::Emit(PlayerEvent::Error(msg)));
                assert(effects_view(fx@) =~= seq![EffectView::Emit(EventView::Error(m))]);
            },
        }
        fx
    }
}

/// Pausing a playing player and then playing again leaves the loop and the shared
/// state as they were; a running decoder is told to pause and then to resume.
pub proof fn lemma_pause_then_play(
    o: CommandLoop,
    os: SharedState,
    n: CommandLoop,
    ns: SharedState,
    fx: Seq<EffectView>,
    n2: CommandLoop,
    ns2: SharedState,
    fx2: Seq<EffectView>,
)
    requires
        code_state(os.playback_state) == PlaybackState::Playing,
        command_post(o, os, PlayerCommand::Pause, n, ns, fx),
        command_post(n, ns, PlayerCommand::Play, n2, ns2, fx2),
    ensures
        n2 == o,
        ns2 == os,
        o.is_decoding() ==> fx[0] == EffectView::Control(DecodeControl::Pause) && fx2[0]
            == EffectView::Control(DecodeControl::Resume),
{
    assert(code_state(ns.playback_state) == PlaybackState::Paused);
    assert(os.playback_state == 1);
}

/// `Next` steps the queue forward one track and plays it. With repeat One the
/// current track plays again. In queue order the cursor moves from `c` to `c + 1`;
/// past the last track it wraps to the first with repeat All and otherwise stops the
/// player. Along a shuffled order it moves one place on in that order; past its end
/// it draws a new order starting at the current track with repeat All, and otherwise
/// stops. With no current track it stops.
pub proof fn lemma_next_command(
    o: CommandLoop,
    os: SharedState,
    n: CommandLoop,
    ns: SharedState,
    fx: Seq<EffectView>,
)
    requires
        o.wf(),
        command_post(o, os, PlayerCommand::Next, n, ns, fx),
    ensures
        n.tracks().uris() == o.tracks().uris(),
        o.tracks().cur() is None ==> stop_post(o, n, ns, fx),
        o.tracks().repeat_mode() == RepeatMode::One ==> (o.tracks().cur() matches Some(c) ==> {
            &&& n.tracks().cur() == Some(c)
            &&& n.is_decoding()
            &&& ns == with_state(os, PlaybackState::Playing)
            &&& fx == stop_fx(o.is_decoding()) + start_fx(o.tracks().uris()[c as int]) + state_fx(
                PlaybackState::Playing,
            )
        }),
        !o.tracks().shuffle_on() && o.tracks().repeat_mode() != RepeatMode::One ==> (
        o.tracks().cur() matches Some(c) ==> if c + 1 < o.tracks().uris().len() {
            &&& n.tracks().cur() == Some((c + 1) as usize)
            &&& n.is_decoding()
            &&& ns == with_state(os, PlaybackState::Playing)
            &&& fx == stop_fx(o.is_decoding()) + start_fx(o.tracks().uris()[c + 1]) + state_fx(
                PlaybackState::Playing,
            )
        } else if o.tracks().repeat_mode() == RepeatMode::All {
            &&& n.tracks().cur() == Some(0usize)
            &&& n.is_decoding()
            &&& ns == with_state(os, PlaybackState::Playing)
            &&& fx == stop_fx(o.is_decoding()) + start_fx(o.tracks().uris()[0]) + state_fx(
                PlaybackState::Playing,
            )
        } else {
            stop_post(o, n, ns, fx)
        }),
        o.tracks().shuffle_on() && o.tracks().repeat_mode() != RepeatMode::One && o.tracks().cur()
            is Some ==> {
            let p = o.tracks().position()->0;
            let ord = o.tracks().order();
            if p + 1 < ord.len() {
                &&& n.tracks().cur() == Some(ord[p + 1])
                &&& n.tracks().order() == ord
                &&& n.tracks().position() == Some((p + 1) as usize)
                &&& n.is_decoding()
                &&& ns == with_state(os, PlaybackState::Playing)
                &&& fx == stop_fx(o.is_decoding()) + start_fx(o.tracks().uris()[ord[p + 1] as int])
                    + state_fx(PlaybackState::Playing)
            } else if o.tracks().repeat_mode() == RepeatMode::All {
                &&& n.tracks().cur() == o.tracks().cur()
                &&& is_index_permutation(n.tracks().order(), o.tracks().uris().len())
                &&& n.tracks().order()[0] == o.tracks().cur()->0
                &&& n.tracks().position() == Some(0usize)
                &&& n.is_decoding()
                &&& ns == with_state(os, PlaybackState::Playing)
                &&& fx == stop_fx(o.is_decoding()) + start_fx(
                    o.tracks().uris()[o.tracks().cur()->0 as int],
                ) + state_fx(PlaybackState::Playing)
            } else {
                stop_post(o, n, ns, fx)
            }
        },
{
    let t = o.tracks();
    t.lemma_wf();
    if t.next_target() is Some {
        if t.next_reshuffles() {
            n.tracks().lemma_reshuffled(t);
        } else {
            t.lemma_advanced();
        }
    }
}

/// `Previous` steps the queue back one track and plays it. In queue order the cursor
/// moves from `c` to `c - 1`; along a shuffled order it moves to the track one place
/// earlier in that order. The decoder is restarted on that track's URI and the state
/// becomes playing. At the start (or with no current track) nothing happens at all.
pub proof fn lemma_previous_command(
    o: CommandLoop,
    os: SharedState,
    n: CommandLoop,
    ns: SharedState,
    fx: Seq<EffectView>,
)
    requires
        o.wf(),
        command_post(o, os, PlayerCommand::Previous, n, ns, fx),
    ensures
        n.tracks().uris() == o.tracks().uris(),
        n.tracks().order() == o.tracks().order(),
        o.tracks().cur() is None ==> n == o && ns == os && fx.len() == 0,
        !o.tracks().shuffle_on() ==> (o.tracks().cur() matches Some(c) ==> if c > 0 {
            &&& n.tracks().cur() == Some((c - 1) as usize)
            &&& n.is_decoding()
            &&& ns == with_state(os, PlaybackState::Playing)
            &&& fx == stop_fx(o.is_decoding()) + start_fx(o.tracks().uris()[c - 1]) + state_fx(
                PlaybackState::Playing,
            )
        } else {
            n == o && ns == os && fx.len() == 0
        }),
        o.tracks().cur() is Some && o.tracks().shuffle_on() ==> {
            let p = o.tracks().position()->0;
            if p > 0 {
                &&& n.tracks().cur() == Some(o.tracks().order()[p - 1])
                &&& n.tracks().position() == Some((p - 1) as usize)
                &&& n.is_decoding()
                &&& ns == with_state(os, PlaybackState::Playing)
                &&& fx == stop_fx(o.is_decoding()) + start_fx(
                    o.tracks().uris()[o.tracks().order()[p - 1] as int],
                ) + state_fx(PlaybackState::Playing)
            } else {
                n == o && ns == os && fx.len() == 0
            }
        },
{
    let t = o.tracks();
    t.lemma_wf();
    if t.previous_target() is Some {
        t.lemma_retreated();
    }
}

/// Stopping twice is the same as stopping once: the second stop finds no decoder
/// and leaves the shared state cleared.
pub proof fn lemma_stop_idempotent(
    o: CommandLoop,
    os: SharedState,
    n: CommandLoop,
    ns: SharedState,
    fx: Seq<EffectView>,
    n2: CommandLoop,
    ns2: SharedState,
    fx2: Seq<EffectView>,
)
    requires
        command_post(o, os, PlayerCommand::Stop, n, ns, fx),
        command_post(n, ns, PlayerCommand::Stop, n2, ns2, fx2),
    ensures
        n2.tracks() == o.tracks(),
        !n2.is_decoding(),
        is_cleared(ns2),
        fx2 == seq![EffectView::ClearBuffer] + state_fx(PlaybackState::Stopped),
{
}

/// What the decoder found when it looked for a control message.
#[derive(Debug, Clone, Copy, PartialEq, Eq, Structural)]
pub enum ControlPoll {
    Received(DecodeControl),
    /// No message was waiting.
    Empty,
    /// The command loop hung up.
    Disconnected,
}

/// What the decoder does after looking for a control message.
#[derive(Debug, Clone, Copy, PartialEq, Eq, Structural)]
pub enum DecodeStep {
    /// Leave the decode loop.
    Stop,
    /// Seek to this position, then look for control messages again.
    Seek(u64),
    /// Look for control messages again without decoding.
    Skip,
    /// Read and decode the next packet.
    Proceed,
}

/// What reading the next packet gave.
#[derive(Debug, Clone, Copy, PartialEq, Eq, Structural)]
pub enum PacketRead {
    /// The stream ended.
    EndOfStream,
    /// Reading failed for another reason.
    Failed,
    /// A packet, of the track being played or another one, at a position.
    Packet { own_track: bool, position_ms: u64 },
}

/// What the decoder does with what it read.
#[derive(Debug, Clone, Copy, PartialEq, Eq, Structural)]
pub enum PacketStep {
    /// Report the end of the track and leave the loop.
    TrackEnded,
    /// Report the read error and leave the loop.
    Abort,
    /// Ignore the packet.
    Skip,
    /// Decode the packet, reporting its position first when `report` holds.
    Decode { report: bool },
}

/// The decoder loop's own state: paused or not, and the last position it reported.
pub struct DecodeState {
    paused: bool,
    last_report_ms: u64,
}

/// How the decoder answers a control poll: the new paused flag and the step.
pub open spec fn control_step(paused: bool, poll: ControlPoll) -> (bool, DecodeStep) {
    match poll {
        ControlPoll::Received(DecodeControl::Stop) => (paused, DecodeStep::Stop),
        ControlPoll::Received(DecodeControl::Pause) => (true, DecodeStep::Skip),
        ControlPoll::Received(DecodeControl::Resume) => if paused {
            (false, DecodeStep::Skip)
        } else {
            (false, DecodeStep::Proceed)
        },
        ControlPoll::Received(DecodeControl::Seek(ms)) => (paused, DecodeStep::Seek(ms)),
        ControlPoll::Empty => (paused, DecodeStep::Proceed),
        ControlPoll::Disconnected => (paused, DecodeStep::Stop),
    }
}

/// A position is reported when it is at least a second past the last report, or
/// before it (after a seek back).
pub open spec fn reports_position(last: u64, pos: u64) -> bool {
    pos >= last + 1000 || pos < last
}

impl DecodeState {
    pub closed spec fn is_paused(&self) -> bool {
        self.paused
    }

    pub closed spec fn last_report(&self) -> u64 {
        self.last_report_ms
    }

    /// A decoder that is playing and has reported nothing yet.
    pub fn new() -> (d: DecodeState)
        ensures
            !d.is_paused(),
            d.last_report() == 0,
    {
        DecodeState { paused: false, last_report_ms: 0 }
    }

    /// Whether the decoder is paused: then it waits for a control message rather
    /// than polling for one.
    pub fn paused(&self) -> (b: bool)
        ensures
            b == self.is_paused(),
    {
        self.paused
    }

    /// Answers the result of looking for a control message. A paused decoder waits
    /// for a message, so it never finds none.
    pub fn on_control(&mut self, poll: ControlPoll) -> (step: DecodeStep)
        requires
            old(self).is_paused() ==> poll != ControlPoll::Empty,
        ensures
            (final(self).is_paused(), step) == control_step(old(self).is_paused(), poll),
            final(self).last_report() == old(self).last_report(),
    {
        match poll {
            ControlPoll::Received(DecodeControl::Stop) => DecodeStep::Stop,
            ControlPoll::Received(DecodeControl::Pause) => {
                self.paused = true;
                DecodeStep::Skip
            },
            ControlPoll::Received(DecodeControl::Resume) => {
                if self.paused {
                    self.paused = false;
                    DecodeStep::Skip
                } else {
                    DecodeStep::Proceed
                }
            },
            ControlPoll::Received(DecodeControl::Seek(ms)) => DecodeStep::Seek(ms),
            ControlPoll::Empty => DecodeStep::Proceed,
            ControlPoll::Disconnected => DecodeStep::Stop,
        }
    }

    /// Answers the result of reading a packet.
    pub fn on_packet(&mut self, read: PacketRead) -> (step: PacketStep)
        ensures
            final(self).is_paused() == old(self).is_paused(),
            match read {
                PacketRead::EndOfStream => step == PacketStep::TrackEnded && final(self).last_report()
                    == old(self).last_report(),
                PacketRead::Failed => step == PacketStep::Abort && final(self).last_report()
                    == old(self).last_report(),
                PacketRead::Packet { own_track, position_ms } => if !own_track {
                    step == PacketStep::Skip && final(self).last_report() == old(self).last_report()
                } else if reports_position(old(self).last_report(), position_ms) {
                    step == PacketStep::Decode { report: true } && final(self).last_report()
                        == position_ms
                } else {
                    step == PacketStep::Decode { report: false } && final(self).last_report()
                        == old(self).last_report()
                },
            },
    {
        match read {
            PacketRead::EndOfStream => PacketStep::TrackEnded,
            PacketRead::Failed => PacketStep::Abort,
            PacketRead::Packet { own_track, position_ms } => {
                if !own_track {
                    return PacketStep::Skip;
                }
                let last = self.last_report_ms;
                let report = position_ms < last || position_ms - last >= 1000;
                if report {
                    self.last_report_ms = position_ms;
                }
                PacketStep::Decode { report }
            },
        }
    }
}

} // verus!
