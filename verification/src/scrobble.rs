//! Listening history: when a track counts as listened to, which submissions to send,
//! and the JSON bodies of those submissions.
use vstd::prelude::*;
use crate::text::{decimal, push_char, push_decimal};
use crate::types::{Track, TrackView};

verus! {

/// A submission to the listening-history service.
#[derive(Debug)]
pub enum ScrobbleRequest {
    /// The track started playing.
    NowPlaying(Track),
    /// The track was listened to.
    Listen(Track),
}

/// Model of a [`ScrobbleRequest`].
pub enum RequestView {
    NowPlaying(TrackView),
    Listen(TrackView),
}

impl View for ScrobbleRequest {
    type V = RequestView;

    open spec fn view(&self) -> RequestView {
        match self {
            ScrobbleRequest::NowPlaying(t) => RequestView::NowPlaying(t@),
            ScrobbleRequest::Listen(t) => RequestView::Listen(t@),
        }
    }
}

/// The models of a list of submissions.
pub open spec fn requests_view(v: Seq<ScrobbleRequest>) -> Seq<RequestView> {
    v.map_values(|r: ScrobbleRequest| r@)
}

/// A track counts as listened to when it is longer than 30 seconds and at least
/// half of it, or four minutes, has been played.
pub open spec fn eligible(accumulated_ms: u64, length: u64) -> bool {
    length > 30_000 && (2 * accumulated_ms >= length || accumulated_ms >= 240_000)
}

/// Play time after a position update: forward steps under two seconds count, longer
/// ones (seeks) and backward steps do not.
pub open spec fn accumulated_after(acc: u64, last: u64, pos: u64) -> int {
    if pos > last && pos - last < 2000 {
        acc + (pos - last)
    } else {
        acc as int
    }
}

/// Scrobbling state tracker.
pub struct Scrobbler {
    pub token: String,
    pub current_track: Option<Track>,
    pub accumulated_ms: u64,
    pub last_position_ms: u64,
    pub scrobbled: bool,
    pub playing: bool,
}

/// Model of a [`Scrobbler`].
pub struct ScrobblerView {
    pub token: Seq<char>,
    pub current: Option<TrackView>,
    pub accumulated_ms: u64,
    pub last_position_ms: u64,
    pub scrobbled: bool,
    pub playing: bool,
}

impl View for Scrobbler {
    type V = ScrobblerView;

    open spec fn view(&self) -> ScrobblerView {
        ScrobblerView {
            token: self.token@,
            current: match self.current_track {
                Some(t) => Some(t@),
                None => None,
            },
            accumulated_ms: self.accumulated_ms,
            last_position_ms: self.last_position_ms,
            scrobbled: self.scrobbled,
            playing: self.playing,
        }
    }
}

/// What a scrobbler reacts to: a new track, a playback position, a play/pause change.
pub enum ScrobbleInput {
    TrackChanged(TrackView),
    Position(u64),
    Playing(bool),
}

/// A new track: the previous one is submitted if it qualifies and was not submitted
/// yet, the counters restart, and with a token the new track is announced.
pub open spec fn track_changed_step(s: ScrobblerView, t: TrackView) -> (ScrobblerView, Seq<RequestView>) {
    (
        ScrobblerView {
            current: Some(t),
            accumulated_ms: 0,
            last_position_ms: 0,
            scrobbled: false,
            ..s
        },
        (match s.current {
            Some(prev) => if eligible(s.accumulated_ms, prev.length) && !s.scrobbled {
                seq![RequestView::Listen(prev)]
            } else {
                Seq::empty()
            },
            None => Seq::empty(),
        }) + (if s.token.len() > 0 {
            seq![RequestView::NowPlaying(t)]
        } else {
            Seq::empty()
        }),
    )
}

/// A position update: while playing with a token, play time accumulates and the
/// current track is submitted once it qualifies; otherwise nothing happens.
pub open spec fn position_step(s: ScrobblerView, pos: u64) -> (ScrobblerView, Seq<RequestView>) {
    if !(s.playing && s.token.len() > 0) {
        (s, Seq::empty())
    } else {
        let acc = accumulated_after(s.accumulated_ms, s.last_position_ms, pos) as u64;
        let due = !s.scrobbled && (s.current matches Some(t) && eligible(acc, t.length));
        (
            ScrobblerView {
                accumulated_ms: acc,
                last_position_ms: pos,
                scrobbled: s.scrobbled || due,
                ..s
            },
            if due {
                seq![RequestView::Listen(s.current->0)]
            } else {
                Seq::empty()
            },
        )
    }
}

/// The next state and the submissions for one input.
pub open spec fn scrobble_step(s: ScrobblerView, i: ScrobbleInput) -> (ScrobblerView, Seq<RequestView>) {
    match i {
        ScrobbleInput::TrackChanged(t) => track_changed_step(s, t),
        ScrobbleInput::Position(p) => position_step(s, p),
        ScrobbleInput::Playing(b) => (ScrobblerView { playing: b, ..s }, Seq::empty()),
    }
}

/// The final state and all submissions, in order, for a sequence of inputs.
pub open spec fn scrobble_run(s: ScrobblerView, ins: Seq<ScrobbleInput>) -> (ScrobblerView, Seq<RequestView>)
    decreases ins.len(),
{
    if ins.len() == 0 {
        (s, Seq::empty())
    } else {
        let (s1, r1) = scrobble_step(s, ins[0]);
        let (s2, r2) = scrobble_run(s1, ins.drop_first());
        (s2, r1 + r2)
    }
}

/// How many listens a list of submissions holds.
pub open spec fn listens(rs: Seq<RequestView>) -> nat
    decreases rs.len(),
{
    if rs.len() == 0 {
        0
    } else {
        (if rs[0] is Listen {
            1nat
        } else {
            0nat
        }) + listens(rs.drop_first())
    }
}

proof fn lemma_listens_concat(a: Seq<RequestView>, b: Seq<RequestView>)
    ensures
        listens(a + b) == listens(a) + listens(b),
    decreases a.len(),
{
    if a.len() == 0 {
        assert(a + b =~= b);
    } else {
        assert((a + b).drop_first() =~= a.drop_first() + b);
        lemma_listens_concat(a.drop_first(), b);
    }
}

/// The token never changes, so whether submissions are enabled never changes,
/// whatever inputs come.
pub proof fn lemma_token_kept(s: ScrobblerView, ins: Seq<ScrobbleInput>)
    ensures
        scrobble_run(s, ins).0.token == s.token,
    decreases ins.len(),
{
    if ins.len() > 0 {
        lemma_token_kept(scrobble_step(s, ins[0]).0, ins.drop_first());
    }
}

/// A scrobbler without a token that has counted no play time (a new one, say) sends
/// nothing, whatever inputs come.
pub proof fn lemma_disabled_sends_nothing(s: ScrobblerView, ins: Seq<ScrobbleInput>)
    requires
        s.token.len() == 0,
        s.accumulated_ms == 0,
    ensures
        scrobble_run(s, ins).1 == Seq::<RequestView>::empty(),
    decreases ins.len(),
{
    if ins.len() > 0 {
        let (s1, r1) = scrobble_step(s, ins[0]);
        assert(r1 =~= Seq::<RequestView>::empty());
        lemma_disabled_sends_nothing(s1, ins.drop_first());
        assert(r1 + scrobble_run(s1, ins.drop_first()).1 =~= Seq::<RequestView>::empty());
    }
}

/// A play is submitted as listened to at most once: over inputs in which only the
/// last may change the track, at most one listen is sent, and none if the current
/// track was already submitted.
pub proof fn lemma_one_listen_per_play(s: ScrobblerView, ins: Seq<ScrobbleInput>)
    requires
        forall|j: int| 0 <= j < ins.len() - 1 ==> !(#[trigger] ins[j] is TrackChanged),
    ensures
        listens(scrobble_run(s, ins).1) <= (if s.scrobbled {
            0nat
        } else {
            1nat
        }),
    decreases ins.len(),
{
    if ins.len() > 0 {
        let (s1, r1) = scrobble_step(s, ins[0]);
        let rest = ins.drop_first();
        assert forall|j: int| 0 <= j < rest.len() - 1 implies !(#[trigger] rest[j] is TrackChanged) by {
            assert(rest[j] == ins[j + 1]);
        }
        lemma_one_listen_per_play(s1, rest);
        lemma_listens_concat(r1, scrobble_run(s1, rest).1);
        reveal_with_fuel(listens, 3);
        if ins.len() > 1 {
            assert(!(ins[0] is TrackChanged));
        } else {
            assert(rest.len() == 0);
            assert(scrobble_run(s1, rest).1 =~= Seq::<RequestView>::empty());
            match ins[0] {
                ScrobbleInput::TrackChanged(t) => {
                    let first: Seq<RequestView> = match s.current {
                        Some(prev) => if eligible(s.accumulated_ms, prev.length) && !s.scrobbled {
                            seq![RequestView::Listen(prev)]
                        } else {
                            Seq::empty()
                        },
                        None => Seq::empty(),
                    };
                    let second: Seq<RequestView> = if s.token.len() > 0 {
                        seq![RequestView::NowPlaying(t)]
                    } else {
                        Seq::empty()
                    };
                    lemma_listens_concat(first, second);
                },
                _ => {},
            }
        }
    }
}

impl Scrobbler {
    /// The service token.
    pub open spec fn token_chars(&self) -> Seq<char> {
        self.token@
    }

    /// Position at the last update.
    pub open spec fn last_position(&self) -> u64 {
        self.last_position_ms
    }

    /// Whether the current track was already submitted as listened to.
    pub open spec fn was_scrobbled(&self) -> bool {
        self.scrobbled
    }

    /// Whether the player is playing.
    pub open spec fn is_playing(&self) -> bool {
        self.playing
    }

    /// Submissions are sent only with a token.
    pub open spec fn enabled(&self) -> bool {
        self.token_chars().len() > 0
    }

    pub fn new(token: String) -> (s: Scrobbler)
        ensures
            s.token_chars() == token@,
            s.current_track is None,
            s.accumulated_ms == 0,
            s.last_position() == 0,
            !s.was_scrobbled(),
            !s.is_playing(),
    {
        Scrobbler {
            token,
            current_track: None,
            accumulated_ms: 0,
            last_position_ms: 0,
            scrobbled: false,
            playing: false,
        }
    }

    pub fn is_enabled(&self) -> (b: bool)
        ensures
            b == self.enabled(),
    {
        self.token.as_str().unicode_len() > 0
    }

    /// The value of the `Authorization` header: `Token ` and the token.
    pub fn authorization(&self) -> (s: String)
        ensures
            s@ == "Token "@ + self.token_chars(),
    {
        let mut s = String::new();
        s.append("Token ");
        s.append(self.token.as_str());
        s
    }

    /// Whether `track` counts as listened to after the play time accumulated so far.
    pub fn is_scrobble_eligible(&self, track: &Track) -> (b: bool)
        ensures
            b == eligible(self.accumulated_ms, track.length),
    {
        if track.length <= 30_000 {
            return false;
        }
        let acc = self.accumulated_ms;
        acc >= 240_000 || acc >= track.length || track.length - acc <= acc
    }

    /// A new track started: the previous one is submitted as listened to if it
    /// qualifies and was not submitted yet; the counters restart; with a token the
    /// new track is announced as playing.
    pub fn on_track_changed(&mut self, track: &Track) -> (reqs: Vec<ScrobbleRequest>)
        ensures
            (final(self)@, requests_view(reqs@)) == track_changed_step(old(self)@, track@),
            final(self).token_chars() == old(self).token_chars(),
            final(self).current_track matches Some(t) && t@ == track@,
            final(self).accumulated_ms == 0,
            final(self).last_position() == 0,
            !final(self).was_scrobbled(),
            final(self).is_playing() == old(self).is_playing(),
            requests_view(reqs@) == (match old(self).current_track {
                Some(prev) => if eligible(old(self).accumulated_ms, prev.length)
                    && !old(self).was_scrobbled() {
                    seq![RequestView::Listen(prev@)]
                } else {
                    Seq::empty()
                },
                None => Seq::empty(),
            }) + (if old(self).enabled() {
                seq![RequestView::NowPlaying(track@)]
            } else {
                Seq::empty()
            }),
    {
        let mut reqs: Vec<ScrobbleRequest> = Vec::new();
        let ghost first: Seq<RequestView> = Seq::empty();
        if let Some(prev) = &self.current_track {
            if self.is_scrobble_eligible(prev) && !self.scrobbled {
                reqs.push(ScrobbleRequest::Listen(prev.duplicate()));
                proof {
                    first = seq![RequestView::Listen(prev@)];
                }
            }
        }
        assert(requests_view(reqs@) =~= first);
        self.current_track = Some(track.duplicate());
        self.accumulated_ms = 0;
        self.last_position_ms = 0;
        self.scrobbled = false;
        if self.is_enabled() {
            reqs.push(ScrobbleRequest::NowPlaying(track.duplicate()));
            assert(requests_view(reqs@) =~= first + seq![RequestView::NowPlaying(track@)]);
        } else {
            assert(requests_view(reqs@) =~= first + Seq::<RequestView>::empty());
        }
        reqs
    }

    /// A position update: while playing with a token, play time accumulates, and the
    /// current track is submitted once it qualifies.
    pub fn on_position_update(&mut self, position_ms: u64) -> (reqs: Vec<ScrobbleRequest>)
        requires
            old(self).is_playing() && old(self).enabled() ==> accumulated_after(
                old(self).accumulated_ms,
                old(self).last_position(),
                position_ms,
            ) <= u64::MAX,
        ensures
            (final(self)@, requests_view(reqs@)) == position_step(old(self)@, position_ms),
            final(self).enabled() == old(self).enabled(),
            old(self).was_scrobbled() ==> final(self).was_scrobbled() && reqs@.len() == 0,
            reqs@.len() <= 1,
            reqs@.len() == 1 ==> final(self).was_scrobbled() && !old(self).was_scrobbled(),
            !(old(self).is_playing() && old(self).enabled()) ==> *final(self) == *old(self)
                && reqs@.len() == 0,
            old(self).is_playing() && old(self).enabled() ==> {
                let acc = accumulated_after(
                    old(self).accumulated_ms,
                    old(self).last_position(),
                    position_ms,
                );
                let due = !old(self).was_scrobbled() && (old(self).current_track matches Some(
                    t,
                ) && eligible(acc as u64, t.length));
                &&& final(self).accumulated_ms == acc
                &&& final(self).last_position() == position_ms
                &&& final(self).was_scrobbled() == (old(self).was_scrobbled() || due)
                &&& final(self).current_track == old(self).current_track
                &&& final(self).token_chars() == old(self).token_chars()
                &&& final(self).is_playing() == old(self).is_playing()
                &&& requests_view(reqs@) == (if due {
                    seq![RequestView::Listen(old(self).current_track->0@)]
                } else {
                    Seq::empty()
                })
            },
    {
        let mut reqs: Vec<ScrobbleRequest> = Vec::new();
        if !self.playing || !self.is_enabled() {
            return reqs;
        }
        if position_ms > self.last_position_ms {
            let delta = position_ms - self.last_position_ms;
            if delta < 2000 {
                self.accumulated_ms = self.accumulated_ms + delta;
            }
        }
        self.last_position_ms = position_ms;
        if !self.scrobbled {
            let due = match &self.current_track {
                Some(track) => self.is_scrobble_eligible(track),
                None => false,
            };
            if due {
                self.scrobbled = true;
                match &self.current_track {
                    Some(track) => {
                        reqs.push(ScrobbleRequest::Listen(track.duplicate()));
                        assert(requests_view(reqs@) =~= seq![RequestView::Listen(track@)]);
                    },
                    None => {},
                }
            }
        }
        proof {
            if reqs@.len() == 0 {
                assert(requests_view(reqs@) =~= Seq::<RequestView>::empty());
            }
        }
        reqs
    }

    /// A playback state change: play time counts only while playing.
    pub fn on_state_changed(&mut self, playing: bool)
        ensures
            final(self)@ == scrobble_step(old(self)@, ScrobbleInput::Playing(playing)).0,
            final(self).is_playing() == playing,
            final(self).token_chars() == old(self).token_chars(),
            final(self).current_track == old(self).current_track,
            final(self).accumulated_ms == old(self).accumulated_ms,
            final(self).last_position() == old(self).last_position(),
            final(self).was_scrobbled() == old(self).was_scrobbled(),
    {
        self.playing = playing;
    }
}

/// `s` with backslashes, double quotes and newlines escaped for a JSON string.
pub open spec fn escaped(s: Seq<char>) -> Seq<char>
    decreases s.len(),
{
    if s.len() == 0 {
        Seq::empty()
    } else {
        let c = s.last();
        escaped(s.drop_last()) + (if c == '\\' {
            seq!['\\', '\\']
        } else if c == '"' {
            seq!['\\', '"']
        } else if c == '\n' {
            seq!['\\', 'n']
        } else {
            seq![c]
        })
    }
}

/// Escapes backslashes, double quotes and newlines for a JSON string.
pub fn escape_json(s: &str) -> (r: String)
    ensures
        r@ == escaped(s@),
{
    let mut r = String::new();
    let mut i: usize = 0;
    let v = crate::text::chars_of(s);
    while i < v.len()
        invariant
            i <= v@.len(),
            v@ == s@,
            r@ == escaped(v@.subrange(0, i as int)),
        decreases v@.len() - i,
    {
        let c = v[i];
        let ghost pre = v@.subrange(0, i as int + 1);
        assert(pre.drop_last() =~= v@.subrange(0, i as int));
        assert(pre.last() == c);
        if c == '\\' {
            push_char(&mut r, '\\');
            push_char(&mut r, '\\');
        } else if c == '"' {
            push_char(&mut r, '\\');
            push_char(&mut r, '"');
        } else if c == '\n' {
            push_char(&mut r, '\\');
            push_char(&mut r, 'n');
        } else {
            push_char(&mut r, c);
        }
        assert(r@ =~= escaped(pre));
        i = i + 1;
    }
    assert(v@.subrange(0, v@.len() as int) =~= s@);
    r
}

/// The artist a submission names: the first artist, or "Unknown".
pub open spec fn artist_name(t: TrackView) -> Seq<char> {
    if t.artists.len() > 0 {
        t.artists[0]
    } else {
        "Unknown"@
    }
}

/// The `track_metadata` object of a submission.
pub open spec fn metadata_json(t: TrackView) -> Seq<char> {
    "{\"artist_name\":\""@ + escaped(artist_name(t)) + "\",\"track_name\":\""@ + escaped(t.name)
        + "\",\"release_name\":\""@ + escaped(t.album) + "\"}"@
}

/// Appends the `track_metadata` object of a submission.
fn push_metadata(s: &mut String, track: &Track)
    ensures
        final(s)@ == old(s)@ + metadata_json(track@),
{
    s.append("{\"artist_name\":\"");
    let artist = if track.artists.len() > 0 {
        escape_json(track.artists[0].as_str())
    } else {
        escape_json("Unknown")
    };
    s.append(artist.as_str());
    s.append("\",\"track_name\":\"");
    s.append(escape_json(track.name.as_str()).as_str());
    s.append("\",\"release_name\":\"");
    s.append(escape_json(track.album.as_str()).as_str());
    s.append("\"}");
    assert(final(s)@ =~= old(s)@ + metadata_json(track@));
}

/// Body announcing that `t` is playing.
pub open spec fn now_playing_json(t: TrackView) -> Seq<char> {
    "{\"listen_type\":\"playing_now\",\"payload\":[{\"track_metadata\":"@ + metadata_json(t) + "}]}"@
}

/// Body submitting `t` as listened to at `at` (seconds since the Unix epoch).
pub open spec fn listen_json(t: TrackView, at: u64) -> Seq<char> {
    "{\"listen_type\":\"single\",\"payload\":[{\"listened_at\":"@ + decimal(at as nat)
        + ",\"track_metadata\":"@ + metadata_json(t) + "}]}"@
}

/// JSON body announcing that `track` is playing.
pub fn now_playing_body(track: &Track) -> (s: String)
    ensures
        s@ == now_playing_json(track@),
{
    let mut s = String::new();
    s.append("{\"listen_type\":\"playing_now\",\"payload\":[{\"track_metadata\":");
    push_metadata(&mut s, track);
    s.append("}]}");
    assert(s@ =~= now_playing_json(track@));
    s
}

/// JSON body submitting `track` as listened to at `listened_at` (seconds since the
/// Unix epoch).
pub fn listen_body(track: &Track, listened_at: u64) -> (s: String)
    ensures
        s@ == listen_json(track@, listened_at),
{
    let mut s = String::new();
    s.append("{\"listen_type\":\"single\",\"payload\":[{\"listened_at\":");
    push_decimal(&mut s, listened_at);
    s.append(",\"track_metadata\":");
    push_metadata(&mut s, track);
    s.append("}]}");
    assert(s@ =~= listen_json(track@, listened_at));
    s
}

/// A track of 30 seconds or less never counts as listened to; a longer one counts
/// once four minutes, or half of it, have been played, and keeps counting as more
/// is played.
pub proof fn lemma_eligibility(acc: u64, more: u64, length: u64)
    requires
        acc <= more,
    ensures
        length <= 30_000 ==> !eligible(acc, length),
        length > 30_000 && acc >= 240_000 ==> eligible(acc, length),
        eligible(acc, length) ==> eligible(more, length),
{
}

} // verus!
