//! The playback queue: an ordered list of track URIs with a cursor, shuffle and
//! repeat modes.
use rand::rngs::ThreadRng;
use rand::seq::SliceRandom;
use std::collections::VecDeque;
use vstd::prelude::*;
use crate::types::RepeatMode;

verus! {

#[verifier::external_type_specification]
#[verifier::external_body]
pub struct ExThreadRng(ThreadRng);

/// Calls `rand::rng`, the thread-local random generator. Nothing is stated of it.
#[verifier::external_body]
fn thread_rng() -> ThreadRng {
    rand::rng()
}

/// Calls `rand::seq::SliceRandom::shuffle` on the vector. The crate's source only
/// swaps elements, so the result holds the same elements, each as often as before;
/// which permutation comes out depends on the generator and is not stated.
#[verifier::external_body]
fn shuffle_indices(v: &mut Vec<usize>, rng: &mut ThreadRng)
    ensures
        final(v)@.len() == old(v)@.len(),
        final(v)@.to_multiset() == old(v)@.to_multiset(),
{
    v.shuffle(rng);
}

/// A playback queue of track URIs, with shuffle and repeat modes.
#[derive(Clone)]
pub struct Tracklist {
    tracks: VecDeque<String>,
    current_index: Option<usize>,
    shuffle: bool,
    repeat: RepeatMode,
    shuffle_order: Vec<usize>,
    shuffle_position: Option<usize>,
}

/// `order` lists every index below `n` exactly once.
pub open spec fn is_index_permutation(order: Seq<usize>, n: nat) -> bool {
    &&& order.len() == n
    &&& order.no_duplicates()
    &&& forall|k: int| 0 <= k < order.len() ==> order[k] < n
    &&& forall|j: usize| j < n ==> order.contains(j)
}

impl Tracklist {
    /// The URIs in queue order.
    pub closed spec fn uris(&self) -> Seq<Seq<char>> {
        self.tracks@.map_values(|s: String| s@)
    }

    /// The index of the current track.
    pub closed spec fn cur(&self) -> Option<usize> {
        self.current_index
    }

    pub closed spec fn shuffle_on(&self) -> bool {
        self.shuffle
    }

    pub closed spec fn repeat_mode(&self) -> RepeatMode {
        self.repeat
    }

    /// The shuffled play order (indices into the queue); empty when shuffle is off.
    pub closed spec fn order(&self) -> Seq<usize> {
        self.shuffle_order@
    }

    /// The position of the current track within the shuffled order.
    pub closed spec fn position(&self) -> Option<usize> {
        self.shuffle_position
    }

    /// The internal invariant.
    pub closed spec fn wf(&self) -> bool {
        &&& (self.current_index matches Some(i) ==> i < self.tracks@.len())
        &&& (!self.shuffle ==> self.shuffle_order@.len() == 0 && self.shuffle_position is None)
        &&& (forall|k: int|
            0 <= k < self.shuffle_order@.len() ==> self.shuffle_order@[k] < self.tracks@.len())
        &&& self.shuffle_order@.no_duplicates()
        &&& (self.shuffle_position matches Some(p) ==> p < self.shuffle_order@.len())
        &&& (self.shuffle_order@.len() > 0 ==> self.shuffle_position is Some)
        &&& (self.shuffle && self.current_index is Some ==> self.shuffle_position is Some
            && self.shuffle_order@[self.shuffle_position->0 as int] == self.current_index->0)
    }

    /// The same state with the shuffle flag set.
    pub closed spec fn with_shuffle_flag(&self) -> Tracklist {
        Tracklist { shuffle: true, ..*self }
    }

    /// The same state with another repeat mode.
    pub closed spec fn with_repeat(&self, mode: RepeatMode) -> Tracklist {
        Tracklist { repeat: mode, ..*self }
    }

    /// The index `next` moves to, or `None` when it returns nothing.
    pub open spec fn next_target(&self) -> Option<usize> {
        match self.cur() {
            None => None,
            Some(cur) => if self.repeat_mode() == RepeatMode::One {
                Some(cur)
            } else if self.shuffle_on() {
                let pos = self.position()->0;
                if pos + 1 < self.order().len() {
                    Some(self.order()[pos + 1])
                } else if self.repeat_mode() == RepeatMode::All && self.order().len() > 0 {
                    Some(cur)
                } else {
                    None
                }
            } else if cur + 1 < self.uris().len() {
                Some((cur + 1) as usize)
            } else if self.repeat_mode() == RepeatMode::All && self.uris().len() > 0 {
                Some(0)
            } else {
                None
            },
        }
    }

    /// `next` reaches the end of the shuffled order and, repeating, draws a new one.
    pub open spec fn next_reshuffles(&self) -> bool {
        &&& self.cur() is Some
        &&& self.repeat_mode() == RepeatMode::All
        &&& self.shuffle_on()
        &&& self.position()->0 + 1 >= self.order().len()
        &&& self.order().len() > 0
    }

    /// The state after a `next` that does not draw a new shuffled order.
    pub closed spec fn advanced(&self) -> Tracklist {
        if self.repeat == RepeatMode::One {
            *self
        } else if self.shuffle {
            let p = (self.shuffle_position->0 + 1) as usize;
            Tracklist {
                shuffle_position: Some(p),
                current_index: Some(self.shuffle_order@[p as int]),
                ..*self
            }
        } else {
            Tracklist { current_index: self.next_target(), ..*self }
        }
    }

    /// The index `previous` moves to, or `None` when it returns nothing.
    pub open spec fn previous_target(&self) -> Option<usize> {
        match self.cur() {
            None => None,
            Some(cur) => if self.shuffle_on() {
                let pos = self.position()->0;
                if pos > 0 {
                    Some(self.order()[pos - 1])
                } else {
                    None
                }
            } else if cur > 0 {
                Some((cur - 1) as usize)
            } else {
                None
            },
        }
    }

    /// The state after a `previous` that moved.
    pub closed spec fn retreated(&self) -> Tracklist {
        if self.shuffle {
            let p = (self.shuffle_position->0 - 1) as usize;
            Tracklist {
                shuffle_position: Some(p),
                current_index: Some(self.shuffle_order@[p as int]),
                ..*self
            }
        } else {
            Tracklist { current_index: self.previous_target(), ..*self }
        }
    }

    /// `self` carries a freshly drawn shuffled order over the same queue as `old`:
    /// every index once, the current track (or the first, if none) first.
    pub closed spec fn reshuffled_from(&self, old: Tracklist) -> bool {
        &&& self.tracks == old.tracks
        &&& self.current_index == old.current_index
        &&& self.shuffle == old.shuffle
        &&& self.repeat == old.repeat
        &&& (if old.tracks@.len() == 0 {
            self.shuffle_order@.len() == 0 && self.shuffle_position is None
        } else {
            &&& is_index_permutation(self.shuffle_order@, old.tracks@.len())
            &&& self.shuffle_order@[0] == (match old.current_index {
                Some(c) => c,
                None => 0,
            })
            &&& self.shuffle_position == Some(0usize)
        })
    }

    /// An empty queue with shuffle and repeat off.
    pub fn new() -> (t: Self)
        ensures
            t.wf(),
            t.uris() == Seq::<Seq<char>>::empty(),
            t.cur() is None,
            !t.shuffle_on(),
            t.repeat_mode() == RepeatMode::Off,
    {
        let t = Tracklist {
            tracks: VecDeque::new(),
            current_index: None,
            shuffle: false,
            repeat: RepeatMode::Off,
            shuffle_order: Vec::new(),
            shuffle_position: None,
        };
        assert(t.uris() =~= Seq::<Seq<char>>::empty());
        t
    }

    /// Appends a URI at the end of the queue; the cursor and modes stay as they are.
    pub fn add(&mut self, uri: String)
        requires
            old(self).wf(),
        ensures
            final(self).wf(),
            final(self).uris() == old(self).uris().push(uri@),
            final(self).cur() == old(self).cur(),
            final(self).shuffle_on() == old(self).shuffle_on(),
            final(self).repeat_mode() == old(self).repeat_mode(),
            final(self).order() == old(self).order(),
            final(self).position() == old(self).position(),
    {
        self.tracks.push_back(uri);
        assert(self.uris() =~= old(self).uris().push(uri@));
    }

    /// Draws a new shuffled order: the current track (or the first) first, then every
    /// other index once, in random order.
    fn generate_shuffle_order(&mut self)
        requires
            old(self).current_index matches Some(i) ==> i < old(self).tracks@.len(),
        ensures
            final(self).reshuffled_from(*old(self)),
    {
        let len = self.tracks.len();
        if len == 0 {
            self.shuffle_order.clear();
            self.shuffle_position = None;
            return;
        }
        let current = match self.current_index {
            Some(c) => c,
            None => 0,
        };
        let mut others: Vec<usize> = Vec::new();
        let mut i: usize = 0;
        while i < len
            invariant
                len == self.tracks@.len(),
                current < len,
                i <= len,
                forall|a: int, b: int| 0 <= a < b < others@.len() ==> others@[a] < others@[b],
                forall|k: int| 0 <= k < others@.len() ==> others@[k] < i && others@[k] != current,
                forall|j: usize| j < i && j != current ==> others@.contains(j),
            decreases len - i,
        {
            let ghost prev = others@;
            if i != current {
                others.push(i);
                assert(others@[others@.len() - 1] == i);
            }
            proof {
                assert forall|j: usize| j < i + 1 && j != current implies others@.contains(j) by {
                    if j == i {
                        assert(others@[others@.len() - 1] == i);
                    } else {
                        assert(prev.contains(j));
                        let w = choose|w: int| 0 <= w < prev.len() && prev[w] == j;
                        assert(others@[w] == j);
                    }
                }
            }
            i = i + 1;
        }
        let ghost before = others@;
        assert(before.no_duplicates());
        let mut rng = thread_rng();
        shuffle_indices(&mut others, &mut rng);
        proof {
            broadcast use vstd::seq_lib::group_to_multiset_ensures;

            before.lemma_multiset_has_no_duplicates();
            others@.lemma_multiset_has_no_duplicates_conv();
            assert forall|x: usize| others@.contains(x) <==> before.contains(x) by {
                assert(others@.contains(x) <==> others@.to_multiset().count(x) > 0);
                assert(before.contains(x) <==> before.to_multiset().count(x) > 0);
            }
        }
        let mut order: Vec<usize> = Vec::new();
        order.push(current);
        let mut k: usize = 0;
        while k < others.len()
            invariant
                order@ == seq![current] + others@.subrange(0, k as int),
                k <= others@.len(),
            decreases others@.len() - k,
        {
            order.push(others[k]);
            k = k + 1;
            assert(order@ =~= seq![current] + others@.subrange(0, k as int));
        }
        assert(others@.subrange(0, others@.len() as int) =~= others@);
        proof {
            assert forall|a: int, b: int|
                0 <= a < order@.len() && 0 <= b < order@.len() && a != b implies order@[a]
                != order@[b] by {
                if a == 0 {
                    assert(before.contains(order@[b]));
                } else if b == 0 {
                    assert(before.contains(order@[a]));
                }
            }
            assert forall|q: int| 0 <= q < order@.len() implies order@[q] < len by {
                if q > 0 {
                    assert(order@[q] == others@[q - 1]);
                    assert(others@.contains(order@[q]));
                    assert(before.contains(order@[q]));
                    let w = choose|w: int| 0 <= w < before.len() && before[w] == order@[q];
                    assert(before[w] < len);
                }
            }
            assert forall|j: usize| j < len implies order@.contains(j) by {
                if j == current {
                    assert(order@[0] == j);
                } else {
                    assert(before.contains(j));
                    let w = choose|w: int| 0 <= w < others@.len() && others@[w] == j;
                    assert(order@[w + 1] == j);
                }
            }
            assert(order@.len() == len) by {
                assert forall|x: usize| before.contains(x) implies x < len by {}
                assert(before.len() == len - 1) by {
                    lemma_sorted_below_len(before, len, current);
                }
            }
        }
        self.shuffle_order = order;
        self.shuffle_position = Some(0);
    }

    /// Replaces the queue with `uris` and puts the cursor on the first one; in shuffle
    /// mode a new order is drawn.
    pub fn load(&mut self, uris: Vec<String>)
        requires
            old(self).wf(),
        ensures
            final(self).wf(),
            final(self).uris() == uris@.map_values(|s: String| s@),
            final(self).cur() == (if uris@.len() == 0 {
                None
            } else {
                Some(0usize)
            }),
            final(self).shuffle_on() == old(self).shuffle_on(),
            final(self).repeat_mode() == old(self).repeat_mode(),
            old(self).shuffle_on() ==> (if uris@.len() == 0 {
                final(self).order().len() == 0 && final(self).position() is None
            } else {
                &&& is_index_permutation(final(self).order(), uris@.len())
                &&& final(self).order()[0] == 0
                &&& final(self).position() == Some(0usize)
            }),
    {
        let n = uris.len();
        let mut tracks: VecDeque<String> = VecDeque::new();
        let mut i: usize = 0;
        while i < uris.len()
            invariant
                i <= uris@.len(),
                tracks@ == uris@.subrange(0, i as int),
            decreases uris@.len() - i,
        {
            tracks.push_back(uris[i].clone());
            i = i + 1;
            assert(tracks@ =~= uris@.subrange(0, i as int));
        }
        assert(uris@.subrange(0, uris@.len() as int) =~= uris@);
        self.tracks = tracks;
        self.current_index = if n == 0 {
            None
        } else {
            Some(0)
        };
        if self.shuffle {
            self.generate_shuffle_order();
        }
        assert(self.uris() =~= uris@.map_values(|s: String| s@));
    }

    /// Empties the queue and forgets the cursor and the shuffled order.
    pub fn clear(&mut self)
        requires
            old(self).wf(),
        ensures
            final(self).wf(),
            final(self).uris() == Seq::<Seq<char>>::empty(),
            final(self).cur() is None,
            final(self).order().len() == 0,
            final(self).position() is None,
            final(self).shuffle_on() == old(self).shuffle_on(),
            final(self).repeat_mode() == old(self).repeat_mode(),
    {
        self.tracks.clear();
        self.current_index = None;
        self.shuffle_order.clear();
        self.shuffle_position = None;
        assert(self.uris() =~= Seq::<Seq<char>>::empty());
    }

    /// The URI under the cursor.
    pub fn current(&self) -> (r: Option<&str>)
        requires
            self.wf(),
        ensures
            r is Some <==> self.cur() is Some,
            r matches Some(s) ==> s@ == self.uris()[self.cur()->0 as int],
    {
        match self.current_index {
            Some(i) => Some(self.tracks[i].as_str()),
            None => None,
        }
    }

    /// Moves to the next track and returns its URI: in queue order, or along the
    /// shuffled order; with repeat One the cursor stays; with repeat All the end wraps
    /// around (drawing a new shuffled order in shuffle mode). `None` at the end of the
    /// queue or when there is no current track, leaving everything as it was.
    pub fn next(&mut self) -> (r: Option<&str>)
        requires
            old(self).wf(),
        ensures
            final(self).wf(),
            r is Some <==> old(self).next_target() is Some,
            r matches Some(s) ==> s@ == old(self).uris()[old(self).next_target()->0 as int],
            final(self).cur() == (match old(self).next_target() {
                Some(t) => Some(t),
                None => old(self).cur(),
            }),
            final(self).uris() == old(self).uris(),
            final(self).shuffle_on() == old(self).shuffle_on(),
            final(self).repeat_mode() == old(self).repeat_mode(),
            old(self).next_target() is None ==> *final(self) == *old(self),
            old(self).next_target() is Some && !old(self).next_reshuffles() ==> *final(self)
                == old(self).advanced(),
            old(self).next_reshuffles() ==> final(self).reshuffled_from(*old(self)),
            !old(self).next_reshuffles() ==> final(self).order() == old(self).order(),
            old(self).shuffle_on() && old(self).repeat_mode() != RepeatMode::One && old(
                self,
            ).next_target() is Some && !old(self).next_reshuffles() ==> final(self).position()
                == Some((old(self).position()->0 + 1) as usize),
    {
        proof {
            if old(self).next_target() is Some && !old(self).next_reshuffles() {
                old(self).lemma_advanced();
            }
        }
        let idx = match self.current_index {
            Some(i) => i,
            None => return None,
        };
        if self.repeat == RepeatMode::One {
            return self.current();
        }
        if self.shuffle {
            return self.next_shuffled();
        }
        self.next_sequential(idx)
    }

    fn next_sequential(&mut self, idx: usize) -> (r: Option<&str>)
        requires
            old(self).wf(),
            !old(self).shuffle,
            old(self).repeat != RepeatMode::One,
            old(self).current_index == Some(idx),
        ensures
            final(self).wf(),
            r is Some <==> old(self).next_target() is Some,
            r matches Some(s) ==> s@ == old(self).uris()[old(self).next_target()->0 as int],
            old(self).next_target() is None ==> *final(self) == *old(self),
            old(self).next_target() is Some ==> *final(self) == old(self).advanced(),
    {
        if idx < self.tracks.len() - 1 {
            self.current_index = Some(idx + 1);
            self.current()
        } else if self.repeat == RepeatMode::All && self.tracks.len() > 0 {
            self.current_index = Some(0);
            self.current()
        } else {
            None
        }
    }

    fn next_shuffled(&mut self) -> (r: Option<&str>)
        requires
            old(self).wf(),
            old(self).shuffle,
            old(self).repeat != RepeatMode::One,
            old(self).current_index is Some,
        ensures
            final(self).wf(),
            r is Some <==> old(self).next_target() is Some,
            r matches Some(s) ==> s@ == old(self).uris()[old(self).next_target()->0 as int],
            final(self).cur() == (match old(self).next_target() {
                Some(t) => Some(t),
                None => old(self).cur(),
            }),
            final(self).uris() == old(self).uris(),
            old(self).next_target() is None ==> *final(self) == *old(self),
            old(self).next_target() is Some && !old(self).next_reshuffles() ==> *final(self)
                == old(self).advanced(),
            old(self).next_reshuffles() ==> final(self).reshuffled_from(*old(self)),
    {
        let pos = match self.shuffle_position {
            Some(p) => p,
            None => return None,
        };
        if pos < self.shuffle_order.len() - 1 {
            self.shuffle_position = Some(pos + 1);
            self.current_index = Some(self.shuffle_order[pos + 1]);
            self.current()
        } else if self.repeat == RepeatMode::All && self.shuffle_order.len() > 0 {
            self.generate_shuffle_order();
            self.current()
        } else {
            None
        }
    }

    /// Moves back one track (in queue order, or along the shuffled order) and returns
    /// its URI; `None` at the start or when there is no current track, leaving
    /// everything as it was.
    pub fn previous(&mut self) -> (r: Option<&str>)
        requires
            old(self).wf(),
        ensures
            final(self).wf(),
            r is Some <==> old(self).previous_target() is Some,
            r matches Some(s) ==> s@ == old(self).uris()[old(self).previous_target()->0 as int],
            final(self).cur() == (match old(self).previous_target() {
                Some(t) => Some(t),
                None => old(self).cur(),
            }),
            final(self).uris() == old(self).uris(),
            final(self).shuffle_on() == old(self).shuffle_on(),
            final(self).repeat_mode() == old(self).repeat_mode(),
            old(self).previous_target() is None ==> *final(self) == *old(self),
            old(self).previous_target() is Some ==> *final(self) == old(self).retreated(),
            final(self).order() == old(self).order(),
            old(self).shuffle_on() && old(self).previous_target() is Some ==> final(self).position()
                == Some((old(self).position()->0 - 1) as usize),
    {
        proof {
            if old(self).previous_target() is Some {
                old(self).lemma_retreated();
            }
        }
        let idx = match self.current_index {
            Some(i) => i,
            None => return None,
        };
        if self.shuffle {
            return self.previous_shuffled();
        }
        self.previous_sequential(idx)
    }

    fn previous_sequential(&mut self, idx: usize) -> (r: Option<&str>)
        requires
            old(self).wf(),
            !old(self).shuffle,
            old(self).current_index == Some(idx),
        ensures
            final(self).wf(),
            r is Some <==> old(self).previous_target() is Some,
            r matches Some(s) ==> s@ == old(self).uris()[old(self).previous_target()->0 as int],
            old(self).previous_target() is None ==> *final(self) == *old(self),
            old(self).previous_target() is Some ==> *final(self) == old(self).retreated(),
    {
        if idx > 0 {
            self.current_index = Some(idx - 1);
            self.current()
        } else {
            None
        }
    }

    fn previous_shuffled(&mut self) -> (r: Option<&str>)
        requires
            old(self).wf(),
            old(self).shuffle,
            old(self).current_index is Some,
        ensures
            final(self).wf(),
            r is Some <==> old(self).previous_target() is Some,
            r matches Some(s) ==> s@ == old(self).uris()[old(self).previous_target()->0 as int],
            old(self).previous_target() is None ==> *final(self) == *old(self),
            old(self).previous_target() is Some ==> *final(self) == old(self).retreated(),
    {
        let pos = match self.shuffle_position {
            Some(p) => p,
            None => return None,
        };
        if pos > 0 {
            self.shuffle_position = Some(pos - 1);
            self.current_index = Some(self.shuffle_order[pos - 1]);
            self.current()
        } else {
            None
        }
    }

    /// Turns shuffle on (drawing a new order that starts at the current track) or off
    /// (dropping the order); the current track stays current either way.
    pub fn set_shuffle(&mut self, on: bool)
        requires
            old(self).wf(),
        ensures
            final(self).wf(),
            final(self).shuffle_on() == on,
            final(self).uris() == old(self).uris(),
            final(self).cur() == old(self).cur(),
            final(self).repeat_mode() == old(self).repeat_mode(),
            on == old(self).shuffle_on() ==> *final(self) == *old(self),
            on && !old(self).shuffle_on() ==> final(self).reshuffled_from(
                old(self).with_shuffle_flag(),
            ),
            !on ==> final(self).order().len() == 0 && final(self).position() is None,
    {
        if on && !self.shuffle {
            self.shuffle = true;
            self.generate_shuffle_order();
        } else if !on && self.shuffle {
            self.shuffle = false;
            self.shuffle_order.clear();
            self.shuffle_position = None;
        }
    }

    pub fn get_shuffle(&self) -> (b: bool)
        ensures
            b == self.shuffle_on(),
    {
        self.shuffle
    }

    pub fn set_repeat(&mut self, mode: RepeatMode)
        requires
            old(self).wf(),
        ensures
            final(self).wf(),
            *final(self) == old(self).with_repeat(mode),
            final(self).repeat_mode() == mode,
            final(self).uris() == old(self).uris(),
            final(self).cur() == old(self).cur(),
            final(self).shuffle_on() == old(self).shuffle_on(),
    {
        self.repeat = mode;
    }

    pub fn get_repeat(&self) -> (m: RepeatMode)
        ensures
            m == self.repeat_mode(),
    {
        self.repeat
    }

    pub fn index(&self) -> (i: Option<usize>)
        ensures
            i == self.cur(),
    {
        self.current_index
    }

    pub fn len(&self) -> (n: usize)
        ensures
            n == self.uris().len(),
    {
        self.tracks.len()
    }

    pub fn is_empty(&self) -> (b: bool)
        ensures
            b == (self.uris().len() == 0),
    {
        self.tracks.len() == 0
    }

    /// What the invariant says of a queue: the cursor lies inside the queue; in
    /// shuffle mode the order lists distinct queue positions and the current track
    /// stands at the shuffled position; out of shuffle mode there is no order.
    pub proof fn lemma_wf(&self)
        requires
            self.wf(),
        ensures
            self.cur() matches Some(i) ==> i < self.uris().len(),
            self.order().no_duplicates(),
            forall|k: int| 0 <= k < self.order().len() ==> #[trigger] self.order()[k] < self.uris().len(),
            self.position() matches Some(p) ==> p < self.order().len(),
            !self.shuffle_on() ==> self.order().len() == 0 && self.position() is None,
            self.shuffle_on() && self.cur() is Some ==> self.position() is Some
                && self.order()[self.position()->0 as int] == self.cur()->0,
            self.uris().len() <= usize::MAX,
            self.order().len() <= usize::MAX,
    {
        assert(self.shuffle_order.len() == self.shuffle_order@.len());
        assert(self.tracks.len() == self.tracks@.len());
    }

    /// A freshly drawn shuffled order keeps the queue, cursor and modes, and lists every
    /// queue position once, starting with the current track (or the first).
    pub proof fn lemma_reshuffled(&self, old: Tracklist)
        requires
            self.reshuffled_from(old),
        ensures
            self.uris() == old.uris(),
            self.cur() == old.cur(),
            self.shuffle_on() == old.shuffle_on(),
            self.repeat_mode() == old.repeat_mode(),
            old.uris().len() == 0 ==> self.order().len() == 0 && self.position() is None,
            old.uris().len() > 0 ==> is_index_permutation(self.order(), old.uris().len())
                && self.order()[0] == (match old.cur() {
                Some(c) => c,
                None => 0,
            }) && self.position() == Some(0usize),
    {
    }

    /// After a `next` that stepped forward without wrapping, `previous` returns to the
    /// track that was current before.
    pub proof fn lemma_next_then_previous(&self)
        requires
            self.wf(),
            self.repeat_mode() != RepeatMode::One,
            self.next_target() is Some,
            self.shuffle_on() ==> self.position()->0 + 1 < self.order().len(),
            !self.shuffle_on() ==> self.cur()->0 + 1 < self.uris().len(),
        ensures
            self.advanced().wf(),
            self.advanced().previous_target() == self.cur(),
            self.advanced().retreated() == *self,
    {
        assert(self.tracks.len() == self.tracks@.len());
        assert(self.shuffle_order.len() == self.shuffle_order@.len());
        let a = self.advanced();
        if self.shuffle {
            let p = self.shuffle_position->0;
            assert(a.shuffle_position == Some((p + 1) as usize));
            assert(self.shuffle_order@[p as int] == self.current_index->0);
            assert(a.previous_target() == Some(self.shuffle_order@[p as int]));
            assert(a.retreated() =~= *self);
        } else {
            assert(a.current_index == Some((self.current_index->0 + 1) as usize));
            assert(a.retreated() =~= *self);
        }
    }

    /// After a `previous` that moved, `next` (without repeat One) returns to the track
    /// that was current before.
    pub proof fn lemma_previous_then_next(&self)
        requires
            self.wf(),
            self.repeat_mode() != RepeatMode::One,
            self.previous_target() is Some,
        ensures
            self.retreated().wf(),
            self.retreated().next_target() == self.cur(),
            !self.retreated().next_reshuffles(),
            self.retreated().advanced() == *self,
    {
    }

    /// With repeat One, `next` keeps the current track.
    pub proof fn lemma_repeat_one_stays(&self)
        requires
            self.wf(),
            self.repeat_mode() == RepeatMode::One,
        ensures
            self.next_target() == self.cur(),
            self.cur() is Some ==> !self.next_reshuffles() && self.advanced() == *self,
    {
    }

    /// In sequential order with repeat All, `next` from the last track goes to the first.
    pub proof fn lemma_repeat_all_wraps(&self)
        requires
            self.wf(),
            !self.shuffle_on(),
            self.repeat_mode() == RepeatMode::All,
            self.cur() == Some((self.uris().len() - 1) as usize),
        ensures
            self.next_target() == Some(0usize),
    {
        assert(self.uris().len() == self.tracks@.len());
        assert(self.tracks.len() == self.tracks@.len());
    }

    /// Walking the shuffled order forward visits distinct tracks: as long as the walk
    /// does not wrap, every track it reaches differs from every earlier one.
    pub proof fn lemma_shuffle_walk_distinct(&self, a: int, b: int)
        requires
            self.wf(),
            self.shuffle_on(),
            0 <= a < b < self.order().len(),
        ensures
            self.order()[a] != self.order()[b],
            self.order()[a] < self.uris().len(),
    {
    }

    /// A step forward that does not draw a new order keeps the queue, the modes and
    /// the shuffled order, moves the cursor to `next_target`, and in shuffle mode
    /// advances the shuffled position by one.
    pub proof fn lemma_advanced(&self)
        requires
            self.wf(),
            self.next_target() is Some,
            !self.next_reshuffles(),
        ensures
            self.advanced().wf(),
            self.advanced().uris() == self.uris(),
            self.advanced().shuffle_on() == self.shuffle_on(),
            self.advanced().repeat_mode() == self.repeat_mode(),
            self.advanced().order() == self.order(),
            self.advanced().cur() == self.next_target(),
            self.shuffle_on() && self.repeat_mode() != RepeatMode::One ==> self.advanced().position()
                == Some((self.position()->0 + 1) as usize),
            !self.shuffle_on() || self.repeat_mode() == RepeatMode::One ==> self.advanced().position()
                == self.position(),
    {
        assert(self.shuffle_order.len() == self.shuffle_order@.len());
        assert(self.tracks.len() == self.tracks@.len());
    }

    /// A step back keeps the queue, the modes and the shuffled order, moves the
    /// cursor to `previous_target`, and in shuffle mode moves the shuffled position
    /// back by one.
    pub proof fn lemma_retreated(&self)
        requires
            self.wf(),
            self.previous_target() is Some,
        ensures
            self.retreated().wf(),
            self.retreated().uris() == self.uris(),
            self.retreated().shuffle_on() == self.shuffle_on(),
            self.retreated().repeat_mode() == self.repeat_mode(),
            self.retreated().order() == self.order(),
            self.retreated().cur() == self.previous_target(),
            self.shuffle_on() ==> self.retreated().position() == Some((self.position()->0 - 1) as usize),
            !self.shuffle_on() ==> self.retreated().position() == self.position(),
    {
    }
}

/// The state after `k` steps forward that draw no new order (`k` calls of `next`).
pub open spec fn advanced_by(t: Tracklist, k: nat) -> Tracklist
    decreases k,
{
    if k == 0 {
        t
    } else {
        advanced_by(t, (k - 1) as nat).advanced()
    }
}

/// The state after `k` steps back (`k` calls of `previous` that moved).
pub open spec fn retreated_by(t: Tracklist, k: nat) -> Tracklist
    decreases k,
{
    if k == 0 {
        t
    } else {
        retreated_by(t, (k - 1) as nat).retreated()
    }
}

/// A freshly shuffled queue (repeat off, position 0) is walked by `next` along its
/// shuffled order: the `k`-th call lands on `order()[k]`, the walk visits every
/// track of the queue exactly once starting with the current one, and the call
/// after the last track returns nothing.
pub proof fn lemma_shuffled_walk(t: Tracklist)
    requires
        t.wf(),
        t.shuffle_on(),
        t.repeat_mode() == RepeatMode::Off,
        t.uris().len() > 0,
        is_index_permutation(t.order(), t.uris().len()),
        t.position() == Some(0usize),
        t.cur() is Some,
    ensures
        t.cur() == Some(t.order()[0]),
        forall|k: nat|
            k < t.uris().len() ==> {
                let s = #[trigger] advanced_by(t, k);
                &&& s.wf()
                &&& s.uris() == t.uris()
                &&& s.shuffle_on()
                &&& s.repeat_mode() == RepeatMode::Off
                &&& s.order() == t.order()
                &&& s.position() == Some(k as usize)
                &&& s.cur() == Some(t.order()[k as int])
                &&& (k + 1 < t.uris().len() ==> s.next_target() == Some(t.order()[k + 1int])
                    && !s.next_reshuffles())
                &&& (k + 1 == t.uris().len() ==> s.next_target() is None)
            },
        Seq::new(t.uris().len(), |k: int| advanced_by(t, k as nat).cur()->0) == t.order(),
{
    let n = t.uris().len();
    t.lemma_wf();
    assert forall|k: nat| k < n implies {
        let s = #[trigger] advanced_by(t, k);
        &&& s.wf()
        &&& s.uris() == t.uris()
        &&& s.shuffle_on()
        &&& s.repeat_mode() == RepeatMode::Off
        &&& s.order() == t.order()
        &&& s.position() == Some(k as usize)
        &&& s.cur() == Some(t.order()[k as int])
        &&& (k + 1 < n ==> s.next_target() == Some(t.order()[k + 1int]) && !s.next_reshuffles())
        &&& (k + 1 == n ==> s.next_target() is None)
    } by {
        lemma_shuffled_walk_step(t, k);
    }
    assert(Seq::new(n, |k: int| advanced_by(t, k as nat).cur()->0) =~= t.order()) by {
        assert forall|k: int| 0 <= k < n implies Seq::new(n, |k: int| advanced_by(t, k as nat).cur()->0)[k]
            == t.order()[k] by {
            lemma_shuffled_walk_step(t, k as nat);
        }
    }
}

proof fn lemma_shuffled_walk_step(t: Tracklist, k: nat)
    requires
        t.wf(),
        t.shuffle_on(),
        t.repeat_mode() == RepeatMode::Off,
        t.uris().len() > 0,
        is_index_permutation(t.order(), t.uris().len()),
        t.position() == Some(0usize),
        t.cur() is Some,
        k < t.uris().len(),
    ensures
        ({
            let s = advanced_by(t, k);
            &&& s.wf()
            &&& s.uris() == t.uris()
            &&& s.shuffle_on()
            &&& s.repeat_mode() == RepeatMode::Off
            &&& s.order() == t.order()
            &&& s.position() == Some(k as usize)
            &&& s.cur() == Some(t.order()[k as int])
            &&& (k + 1 < t.uris().len() ==> s.next_target() == Some(t.order()[k + 1int])
                && !s.next_reshuffles())
            &&& (k + 1 == t.uris().len() ==> s.next_target() is None)
        }),
    decreases k,
{
    t.lemma_wf();
    let n = t.uris().len();
    if k > 0 {
        lemma_shuffled_walk_step(t, (k - 1) as nat);
        let p = advanced_by(t, (k - 1) as nat);
        assert(p.next_target() == Some(t.order()[k as int]));
        p.lemma_advanced();
        assert(advanced_by(t, k) == p.advanced());
    }
    let s = advanced_by(t, k);
    s.lemma_wf();
    assert(s.order().len() == n);
    if k + 1 < n {
        assert(s.next_target() == Some(t.order()[k + 1int]));
    } else {
        assert(s.next_target() is None);
    }
}

/// Going back `k` tracks and then forward `k` tracks walks the same tracks again and
/// ends where it started: each forward step lands where the matching backward step
/// came from, and none of them draws a new shuffled order.
pub proof fn lemma_back_then_forward(t: Tracklist, k: nat)
    requires
        t.wf(),
        t.repeat_mode() != RepeatMode::One,
        forall|j: nat| j < k ==> (#[trigger] retreated_by(t, j)).previous_target() is Some,
    ensures
        forall|j: nat| j <= k ==> (#[trigger] retreated_by(t, j)).wf(),
        forall|j: nat|
            0 < j <= k ==> (#[trigger] retreated_by(t, j)).next_target() == retreated_by(
                t,
                (j - 1) as nat,
            ).cur() && !retreated_by(t, j).next_reshuffles() && retreated_by(t, j).advanced()
                == retreated_by(t, (j - 1) as nat),
        forall|j: nat| j <= k ==> #[trigger] advanced_by(retreated_by(t, k), j) == retreated_by(
            t,
            (k - j) as nat,
        ),
        advanced_by(retreated_by(t, k), k) == t,
{
    lemma_retreated_chain(t, k);
    assert forall|j: nat| j <= k implies #[trigger] advanced_by(retreated_by(t, k), j)
        == retreated_by(t, (k - j) as nat) by {
        lemma_forward_again(t, k, j);
    }
    lemma_forward_again(t, k, k);
}

proof fn lemma_retreated_chain(t: Tracklist, k: nat)
    requires
        t.wf(),
        t.repeat_mode() != RepeatMode::One,
        forall|j: nat| j < k ==> (#[trigger] retreated_by(t, j)).previous_target() is Some,
    ensures
        forall|j: nat|
            j <= k ==> (#[trigger] retreated_by(t, j)).wf() && retreated_by(t, j).repeat_mode()
                == t.repeat_mode(),
        forall|j: nat|
            0 < j <= k ==> (#[trigger] retreated_by(t, j)).next_target() == retreated_by(
                t,
                (j - 1) as nat,
            ).cur() && !retreated_by(t, j).next_reshuffles() && retreated_by(t, j).advanced()
                == retreated_by(t, (j - 1) as nat),
    decreases k,
{
    if k > 0 {
        lemma_retreated_chain(t, (k - 1) as nat);
        let s = retreated_by(t, (k - 1) as nat);
        assert(s.previous_target() is Some);
        s.lemma_retreated();
        s.lemma_previous_then_next();
        assert(retreated_by(t, k) == s.retreated());
    }
}

proof fn lemma_forward_again(t: Tracklist, k: nat, j: nat)
    requires
        t.wf(),
        t.repeat_mode() != RepeatMode::One,
        forall|i: nat| i < k ==> (#[trigger] retreated_by(t, i)).previous_target() is Some,
        j <= k,
    ensures
        advanced_by(retreated_by(t, k), j) == retreated_by(t, (k - j) as nat),
    decreases j,
{
    if j > 0 {
        lemma_forward_again(t, k, (j - 1) as nat);
        lemma_retreated_chain(t, k);
        let m = (k - j) as nat;
        let s = retreated_by(t, m);
        assert(s.wf());
        assert(s.previous_target() is Some);
        s.lemma_previous_then_next();
        assert(retreated_by(t, (m + 1) as nat) == s.retreated());
        assert(advanced_by(retreated_by(t, k), j) == advanced_by(
            retreated_by(t, k),
            (j - 1) as nat,
        ).advanced());
    }
}

/// A strictly increasing sequence of indices below `n`, none equal to `skip < n`,
/// that holds every such index, has `n - 1` elements.
proof fn lemma_sorted_below_len(s: Seq<usize>, n: usize, skip: usize)
    requires
        skip < n,
        forall|a: int, b: int| 0 <= a < b < s.len() ==> s[a] < s[b],
        forall|k: int| 0 <= k < s.len() ==> s[k] < n && s[k] != skip,
        forall|j: usize| j < n && j != skip ==> s.contains(j),
    ensures
        s.len() == n - 1,
{
    // s[k] is k below skip, k + 1 from skip on.
    assert forall|k: int| 0 <= k < s.len() implies (#[trigger] s[k] as int) == (if k < skip {
        k
    } else {
        k + 1
    }) by {
        lemma_sorted_index(s, n, skip, k);
    }
    if s.len() < n - 1 {
        let j: usize = if s.len() < skip {
            s.len() as usize
        } else {
            (s.len() + 1) as usize
        };
        assert(s.contains(j));
        let w = choose|w: int| 0 <= w < s.len() && s[w] == j;
        assert(s[w] as int == (if w < skip {
            w
        } else {
            w + 1
        }));
    } else if s.len() > n - 1 {
        let last = s.len() - 1;
        assert(s[last] as int == (if last < skip {
            last
        } else {
            last + 1
        }));
    }
}

proof fn lemma_sorted_index(s: Seq<usize>, n: usize, skip: usize, k: int)
    requires
        skip < n,
        0 <= k < s.len(),
        forall|a: int, b: int| 0 <= a < b < s.len() ==> s[a] < s[b],
        forall|q: int| 0 <= q < s.len() ==> s[q] < n && s[q] != skip,
        forall|j: usize| j < n && j != skip ==> s.contains(j),
    ensures
        s[k] as int == (if k < skip {
            k
        } else {
            k + 1
        }),
    decreases k,
{
    if k > 0 {
        lemma_sorted_index(s, n, skip, k - 1);
    }
    // s[k] is at least the expected value: strictly above s[k - 1].
    let expect: int = if k < skip {
        k
    } else {
        k + 1
    };
    if (s[k] as int) > expect {
        // the expected value is missing between s[k - 1] and s[k]
        let j = expect as usize;
        assert(j < n);
        assert(j != skip) by {
            if j == skip {
                // then k == skip and expect == k + 1, contradiction with k < skip case
                assert(k >= skip);
            }
        }
        assert(s.contains(j));
        let w = choose|w: int| 0 <= w < s.len() && s[w] == j;
        if w < k {
            if w < k - 1 {
                assert(s[w] < s[k - 1]);
            }
        } else {
            assert(s[w] >= s[k]);
        }
    } else if (s[k] as int) < expect {
        if k > 0 {
            assert(s[k - 1] < s[k]);
        }
    }
}

impl Default for Tracklist {
    fn default() -> (t: Self)
        ensures
            t.wf(),
            t.uris() == Seq::<Seq<char>>::empty(),
            t.cur() is None,
            !t.shuffle_on(),
            t.repeat_mode() == RepeatMode::Off,
    {
        Self::new()
    }
}

} // verus!
