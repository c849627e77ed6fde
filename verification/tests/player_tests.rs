use rustify::player::{
    CommandLoop, ControlPoll, DecodeControl, DecodeState, DecodeStep, Effect, InternalEvent,
    PacketRead, PacketStep, SharedState,
};
use rustify::types::{PlaybackState, PlayerCommand, PlayerEvent, RepeatMode, Track};

#[test]
fn shared_state_initial_values() {
    let state = SharedState::new();
    assert_eq!(state.get_playback_state(), PlaybackState::Stopped);
    assert!(state.current_track.is_none());
    assert_eq!(state.time_position_ms, 0);
}

#[test]
fn shared_state_playback_transitions() {
    let mut state = SharedState::new();
    state.set_playback_state(PlaybackState::Playing);
    assert_eq!(state.get_playback_state(), PlaybackState::Playing);

    state.set_playback_state(PlaybackState::Paused);
    assert_eq!(state.get_playback_state(), PlaybackState::Paused);

    state.set_playback_state(PlaybackState::Stopped);
    assert_eq!(state.get_playback_state(), PlaybackState::Stopped);
}

#[test]
fn shared_state_encoding() {
    let mut state = SharedState::new();
    state.set_playback_state(PlaybackState::Paused);
    assert_eq!(state.playback_state, 2);
    state.playback_state = 7;
    assert_eq!(state.get_playback_state(), PlaybackState::Stopped);
}

fn uris(list: &[&str]) -> Vec<String> {
    list.iter().map(|s| s.to_string()).collect()
}

fn track(uri: &str) -> Track {
    Track {
        uri: uri.into(),
        name: "T".into(),
        artists: vec![],
        album: String::new(),
        length: 1000,
        track_no: None,
    }
}

#[test]
fn play_with_empty_queue_does_nothing() {
    let mut core = CommandLoop::new();
    let mut shared = SharedState::new();
    let fx = core.handle_command(&mut shared, PlayerCommand::Play);
    assert!(fx.is_empty());
    assert_eq!(shared.get_playback_state(), PlaybackState::Stopped);
    assert!(!core.decoding());
}

#[test]
fn load_then_play_starts_first_track() {
    let mut core = CommandLoop::new();
    let mut shared = SharedState::new();
    let fx = core.handle_command(&mut shared, PlayerCommand::LoadTrackUris(uris(&["file:///a.mp3", "file:///b.mp3"])));
    assert_eq!(fx.len(), 2);
    assert!(matches!(fx[0], Effect::ClearBuffer));
    assert!(matches!(fx[1], Effect::Emit(PlayerEvent::StateChanged(PlaybackState::Stopped))));
    let fx = core.handle_command(&mut shared, PlayerCommand::Play);
    assert_eq!(fx.len(), 3);
    assert!(matches!(fx[0], Effect::ClearBuffer));
    match &fx[1] {
        Effect::StartDecode(u) => assert_eq!(u, "file:///a.mp3"),
        other => panic!("unexpected {:?}", other),
    }
    assert!(matches!(fx[2], Effect::Emit(PlayerEvent::StateChanged(PlaybackState::Playing))));
    assert_eq!(shared.get_playback_state(), PlaybackState::Playing);
    assert!(core.decoding());
}

#[test]
fn pause_and_resume_control_the_decoder() {
    let mut core = CommandLoop::new();
    let mut shared = SharedState::new();
    core.handle_command(&mut shared, PlayerCommand::LoadTrackUris(uris(&["file:///a.mp3"])));
    core.handle_command(&mut shared, PlayerCommand::Play);
    let fx = core.handle_command(&mut shared, PlayerCommand::Pause);
    assert!(matches!(fx[0], Effect::Control(DecodeControl::Pause)));
    assert_eq!(shared.get_playback_state(), PlaybackState::Paused);
    let fx = core.handle_command(&mut shared, PlayerCommand::Play);
    assert!(matches!(fx[0], Effect::Control(DecodeControl::Resume)));
    assert!(matches!(fx[1], Effect::Emit(PlayerEvent::StateChanged(PlaybackState::Playing))));
    assert_eq!(shared.get_playback_state(), PlaybackState::Playing);
    let fx = core.handle_command(&mut shared, PlayerCommand::Play);
    assert!(fx.is_empty());
}

#[test]
fn next_switches_decoder_and_stops_at_end() {
    let mut core = CommandLoop::new();
    let mut shared = SharedState::new();
    core.handle_command(&mut shared, PlayerCommand::LoadTrackUris(uris(&["file:///a.mp3", "file:///b.mp3"])));
    core.handle_command(&mut shared, PlayerCommand::Play);
    let fx = core.handle_command(&mut shared, PlayerCommand::Next);
    assert_eq!(fx.len(), 5);
    assert!(matches!(fx[0], Effect::StopDecode));
    assert!(matches!(fx[1], Effect::ClearBuffer));
    assert!(matches!(fx[2], Effect::ClearBuffer));
    match &fx[3] {
        Effect::StartDecode(u) => assert_eq!(u, "file:///b.mp3"),
        other => panic!("unexpected {:?}", other),
    }
    let fx = core.handle_command(&mut shared, PlayerCommand::Next);
    assert!(matches!(fx[0], Effect::StopDecode));
    assert!(matches!(fx[2], Effect::Emit(PlayerEvent::StateChanged(PlaybackState::Stopped))));
    assert_eq!(shared.get_playback_state(), PlaybackState::Stopped);
    assert!(!core.decoding());
}

#[test]
fn seek_reaches_only_a_running_decoder() {
    let mut core = CommandLoop::new();
    let mut shared = SharedState::new();
    assert!(core.handle_command(&mut shared, PlayerCommand::Seek(5000)).is_empty());
    core.handle_command(&mut shared, PlayerCommand::LoadTrackUris(uris(&["file:///a.mp3"])));
    core.handle_command(&mut shared, PlayerCommand::Play);
    let fx = core.handle_command(&mut shared, PlayerCommand::Seek(5000));
    assert!(matches!(fx[0], Effect::ClearBuffer));
    assert!(matches!(fx[1], Effect::Control(DecodeControl::Seek(5000))));
    let fx = core.handle_command(&mut shared, PlayerCommand::SetVolume(30));
    assert!(matches!(fx[0], Effect::SetVolume(30)));
}

#[test]
fn mode_changes_are_announced() {
    let mut core = CommandLoop::new();
    let mut shared = SharedState::new();
    let fx = core.handle_command(&mut shared, PlayerCommand::SetRepeat(RepeatMode::All));
    assert!(matches!(fx[0], Effect::Emit(PlayerEvent::ModeChanged { shuffle: false, repeat: RepeatMode::All })));
    let fx = core.handle_command(&mut shared, PlayerCommand::SetShuffle(true));
    assert!(matches!(fx[0], Effect::Emit(PlayerEvent::ModeChanged { shuffle: true, repeat: RepeatMode::All })));
    assert!(core.tracklist().get_shuffle());
}

#[test]
fn decoder_events_update_shared_state() {
    let mut core = CommandLoop::new();
    let mut shared = SharedState::new();
    core.handle_command(&mut shared, PlayerCommand::LoadTrackUris(uris(&["file:///a.mp3", "file:///b.mp3"])));
    core.handle_command(&mut shared, PlayerCommand::Play);
    let fx = core.handle_event(&mut shared, InternalEvent::TrackChanged(track("file:///a.mp3")));
    assert_eq!(shared.current_track.as_ref().unwrap().uri, "file:///a.mp3");
    assert!(matches!(fx[0], Effect::Emit(PlayerEvent::TrackChanged(_))));
    core.handle_event(&mut shared, InternalEvent::Position(1500));
    assert_eq!(shared.time_position_ms, 1500);
    let fx = core.handle_event(&mut shared, InternalEvent::TrackEnded);
    match &fx[3] {
        Effect::StartDecode(u) => assert_eq!(u, "file:///b.mp3"),
        other => panic!("unexpected {:?}", other),
    }
    let fx = core.handle_event(&mut shared, InternalEvent::TrackEnded);
    assert!(matches!(fx[0], Effect::ReleaseDecode));
    assert_eq!(shared.get_playback_state(), PlaybackState::Stopped);
    assert!(shared.current_track.is_none());
    assert_eq!(shared.time_position_ms, 0);
}

#[test]
fn decode_failure_resets_and_reports() {
    let mut core = CommandLoop::new();
    let mut shared = SharedState::new();
    core.handle_command(&mut shared, PlayerCommand::LoadTrackUris(uris(&["file:///a.mp3"])));
    core.handle_command(&mut shared, PlayerCommand::Play);
    let fx = core.handle_event(&mut shared, InternalEvent::DecodeFailed("open: gone".into()));
    assert_eq!(fx.len(), 3);
    assert!(matches!(fx[0], Effect::ReleaseDecode));
    match &fx[2] {
        Effect::Emit(PlayerEvent::Error(m)) => assert_eq!(m, "open: gone"),
        other => panic!("unexpected {:?}", other),
    }
    assert_eq!(shared.get_playback_state(), PlaybackState::Stopped);
    assert!(!core.decoding());
}

#[test]
fn shutdown_stops_the_decoder() {
    let mut core = CommandLoop::new();
    let mut shared = SharedState::new();
    core.handle_command(&mut shared, PlayerCommand::LoadTrackUris(uris(&["file:///a.mp3"])));
    core.handle_command(&mut shared, PlayerCommand::Play);
    let fx = core.handle_command(&mut shared, PlayerCommand::Shutdown);
    assert_eq!(fx.len(), 2);
    assert!(matches!(fx[0], Effect::StopDecode));
    assert!(matches!(fx[1], Effect::ClearBuffer));
}

#[test]
fn decoder_control_steps() {
    let mut d = DecodeState::new();
    assert!(!d.paused());
    assert_eq!(d.on_control(ControlPoll::Empty), DecodeStep::Proceed);
    assert_eq!(d.on_control(ControlPoll::Received(DecodeControl::Pause)), DecodeStep::Skip);
    assert!(d.paused());
    assert_eq!(d.on_control(ControlPoll::Received(DecodeControl::Seek(9))), DecodeStep::Seek(9));
    assert!(d.paused());
    assert_eq!(d.on_control(ControlPoll::Received(DecodeControl::Resume)), DecodeStep::Skip);
    assert!(!d.paused());
    assert_eq!(d.on_control(ControlPoll::Received(DecodeControl::Resume)), DecodeStep::Proceed);
    assert_eq!(d.on_control(ControlPoll::Disconnected), DecodeStep::Stop);
    assert_eq!(d.on_control(ControlPoll::Received(DecodeControl::Stop)), DecodeStep::Stop);
}

#[test]
fn decoder_reports_position_about_every_second() {
    let mut d = DecodeState::new();
    let p = |ms: u64| PacketRead::Packet { own_track: true, position_ms: ms };
    assert_eq!(d.on_packet(p(0)), PacketStep::Decode { report: false });
    assert_eq!(d.on_packet(p(999)), PacketStep::Decode { report: false });
    assert_eq!(d.on_packet(p(1000)), PacketStep::Decode { report: true });
    assert_eq!(d.on_packet(p(1500)), PacketStep::Decode { report: false });
    assert_eq!(d.on_packet(p(200)), PacketStep::Decode { report: true });
    assert_eq!(
        d.on_packet(PacketRead::Packet { own_track: false, position_ms: 90_000 }),
        PacketStep::Skip
    );
    assert_eq!(d.on_packet(PacketRead::EndOfStream), PacketStep::TrackEnded);
    assert_eq!(d.on_packet(PacketRead::Failed), PacketStep::Abort);
}

#[test]
fn stopping_twice_is_stopping_once() {
    let mut core = CommandLoop::new();
    let mut shared = SharedState::new();
    core.handle_command(&mut shared, PlayerCommand::LoadTrackUris(uris(&["file:///a.mp3"])));
    core.handle_command(&mut shared, PlayerCommand::Play);
    let first = core.handle_command(&mut shared, PlayerCommand::Stop);
    assert_eq!(first.len(), 3);
    let second = core.handle_command(&mut shared, PlayerCommand::Stop);
    assert_eq!(second.len(), 2);
    assert!(matches!(second[0], Effect::ClearBuffer));
    assert_eq!(shared.get_playback_state(), PlaybackState::Stopped);
    assert_eq!(core.tracklist().len(), 1);
}
