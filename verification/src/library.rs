//! The in-memory music library: tracks grouped by artist and album, a sorted
//! track list, and case-insensitive search.
use vstd::prelude::*;
use crate::sorting::{
    lemma_sort_insert_at, lemma_stable_sort_multiset, lemma_stable_sort_ordered, ordered_by,
    sort_insert, stable_sort, strict_weak_order,
};
use crate::text::{
    chars_contain, chars_eq, chars_lt, chars_of, has_infix, lemma_seq_lt_asym, lemma_seq_lt_irrefl,
    lemma_seq_lt_total, lemma_seq_lt_trans, lowercase, seq_lt, string_from_chars, to_lowercase,
};
use crate::types::{copy_tracks, tracks_view, Track, TrackView};

verus! {

/// An album in the library index.
#[derive(Debug, Clone)]
pub struct Album {
    pub name: String,
    pub artist: String,
    pub tracks: Vec<Track>,
}

/// Model of an [`Album`].
pub struct AlbumView {
    pub name: Seq<char>,
    pub artist: Seq<char>,
    pub tracks: Seq<TrackView>,
}

impl View for Album {
    type V = AlbumView;

    open spec fn view(&self) -> AlbumView {
        AlbumView { name: self.name@, artist: self.artist@, tracks: tracks_view(self.tracks@) }
    }
}

/// The models of a list of albums.
pub open spec fn albums_view(v: Seq<Album>) -> Seq<AlbumView> {
    v.map_values(|a: Album| a@)
}

#[derive(Debug)]
struct ArtistEntry {
    name: String,
    albums: Vec<Album>,
}

/// In-memory music library index, organized by artist and album.
#[derive(Debug)]
pub struct Library {
    artists: Vec<ArtistEntry>,
    tracks: Vec<Track>,
}

/// `"Unknown Artist"`.
pub open spec fn unknown_artist() -> Seq<char> {
    seq!['U', 'n', 'k', 'n', 'o', 'w', 'n', ' ', 'A', 'r', 't', 'i', 's', 't']
}

/// The artist a track is filed under: its first artist, or "Unknown Artist".
pub open spec fn artist_of(t: TrackView) -> Seq<char> {
    if t.artists.len() == 0 {
        unknown_artist()
    } else {
        t.artists[0]
    }
}

/// Sort key of a track within its album: its number, tracks without one last.
pub open spec fn track_no_key(t: TrackView) -> int {
    match t.track_no {
        Some(n) => n as int,
        None => u32::MAX as int,
    }
}

/// Track order within an album.
pub open spec fn gt_track_no() -> spec_fn(TrackView, TrackView) -> bool {
    |a: TrackView, b: TrackView| track_no_key(a) > track_no_key(b)
}

/// Track order in the song list: by lower-cased name.
pub open spec fn gt_lower_name() -> spec_fn(TrackView, TrackView) -> bool {
    |a: TrackView, b: TrackView| seq_lt(lowercase(b.name), lowercase(a.name))
}

/// Album order in the album list: by name.
pub open spec fn gt_album_name() -> spec_fn(AlbumView, AlbumView) -> bool {
    |a: AlbumView, b: AlbumView| seq_lt(b.name, a.name)
}

/// The tracks of one album of one artist, in input order.
pub open spec fn in_group(artist: Seq<char>, album: Seq<char>) -> spec_fn(TrackView) -> bool {
    |t: TrackView| artist_of(t) == artist && t.album == album
}

/// Strictly increasing names.
pub open spec fn strictly_sorted(s: Seq<Seq<char>>) -> bool {
    forall|i: int, j: int| 0 <= i < j < s.len() ==> seq_lt(#[trigger] s[i], #[trigger] s[j])
}

/// What a search for `q` (already lower-cased) matches: the lower-cased name, album
/// or one of the artists contains it.
pub open spec fn track_matches(t: TrackView, q: Seq<char>) -> bool {
    ||| has_infix(lowercase(t.name), q)
    ||| has_infix(lowercase(t.album), q)
    ||| exists|i: int| 0 <= i < t.artists.len() && has_infix(lowercase(#[trigger] t.artists[i]), q)
}

/// A search for `q` (already lower-cased).
pub open spec fn matches_query(q: Seq<char>) -> spec_fn(TrackView) -> bool {
    |t: TrackView| track_matches(t, q)
}

/// The names of a list of albums.
pub open spec fn album_names(albums: Seq<AlbumView>) -> Seq<Seq<char>> {
    albums.map_values(|al: AlbumView| al.name)
}

/// Some track is filed under `artist` with album name `n`.
pub open spec fn artist_has_album(tracks: Seq<TrackView>, artist: Seq<char>, n: Seq<char>) -> bool {
    exists|i: int| 0 <= i < tracks.len() && artist_of(#[trigger] tracks[i]) == artist && tracks[i].album == n
}

/// `albums` is the album list of `artist` over `tracks`: one album per distinct album
/// name among that artist's tracks, sorted by name, each holding its tracks (input
/// order, stably sorted by track number).
pub open spec fn albums_built(tracks: Seq<TrackView>, artist: Seq<char>, albums: Seq<AlbumView>) -> bool {
    &&& strictly_sorted(album_names(albums))
    &&& forall|n: Seq<char>| #[trigger] album_names(albums).contains(n) <==> artist_has_album(tracks, artist, n)
    &&& forall|b: int|
        0 <= b < albums.len() ==> (#[trigger] albums[b]).artist == artist && albums[b].tracks
            == stable_sort(tracks.filter(in_group(artist, albums[b].name)), gt_track_no())
}

/// `gt_track_no` is a strict weak order.
pub proof fn lemma_gt_track_no_order()
    ensures
        strict_weak_order(gt_track_no()),
{
}

/// `gt_lower_name` is a strict weak order.
pub proof fn lemma_gt_lower_name_order()
    ensures
        strict_weak_order(gt_lower_name()),
{
    let gt = gt_lower_name();
    assert forall|a: TrackView| !#[trigger] gt(a, a) by {
        lemma_seq_lt_irrefl(lowercase(a.name));
    }
    assert forall|a: TrackView, b: TrackView, c: TrackView| #[trigger] gt(a, b) && #[trigger] gt(
        b,
        c,
    ) implies gt(a, c) by {
        lemma_seq_lt_trans(lowercase(c.name), lowercase(b.name), lowercase(a.name));
    }
    assert forall|a: TrackView, b: TrackView, c: TrackView| !#[trigger] gt(a, b) && !#[trigger] gt(
        b,
        c,
    ) implies !gt(a, c) by {
        lemma_seq_lt_total(lowercase(a.name), lowercase(b.name));
        lemma_seq_lt_total(lowercase(b.name), lowercase(c.name));
        if gt(a, c) {
            if seq_lt(lowercase(a.name), lowercase(b.name)) {
                lemma_seq_lt_trans(lowercase(c.name), lowercase(a.name), lowercase(b.name));
            }
        }
    }
}

/// `gt_album_name` is a strict weak order.
pub proof fn lemma_gt_album_name_order()
    ensures
        strict_weak_order(gt_album_name()),
{
    let gt = gt_album_name();
    assert forall|a: AlbumView| !#[trigger] gt(a, a) by {
        lemma_seq_lt_irrefl(a.name);
    }
    assert forall|a: AlbumView, b: AlbumView, c: AlbumView| #[trigger] gt(a, b) && #[trigger] gt(
        b,
        c,
    ) implies gt(a, c) by {
        lemma_seq_lt_trans(c.name, b.name, a.name);
    }
    assert forall|a: AlbumView, b: AlbumView, c: AlbumView| !#[trigger] gt(a, b) && !#[trigger] gt(
        b,
        c,
    ) implies !gt(a, c) by {
        lemma_seq_lt_total(a.name, b.name);
        lemma_seq_lt_total(b.name, c.name);
        if gt(a, c) {
            if seq_lt(a.name, b.name) {
                lemma_seq_lt_trans(c.name, a.name, b.name);
            }
        }
    }
}

/// The character vectors' contents.
spec fn chars_views(v: Seq<Vec<char>>) -> Seq<Seq<char>> {
    v.map_values(|c: Vec<char>| c@)
}

/// Inserts `x` into a strictly sorted list of names unless it is already there.
fn insert_sorted(v: &mut Vec<Vec<char>>, x: Vec<char>)
    requires
        strictly_sorted(chars_views(old(v)@)),
    ensures
        strictly_sorted(chars_views(final(v)@)),
        forall|k: Seq<char>|
            chars_views(final(v)@).contains(k) <==> chars_views(old(v)@).contains(k) || k == x@,
{
    let ghost old_v = chars_views(v@);
    let mut pos: usize = 0;
    while pos < v.len() && chars_lt(v[pos].as_slice(), x.as_slice())
        invariant
            pos <= v@.len(),
            chars_views(v@) == old_v,
            forall|k: int| 0 <= k < pos ==> seq_lt(#[trigger] old_v[k], x@),
        decreases v@.len() - pos,
    {
        pos = pos + 1;
    }
    if pos < v.len() && chars_eq(v[pos].as_slice(), x.as_slice()) {
        assert(old_v.contains(x@)) by {
            assert(old_v[pos as int] == x@);
        }
        return;
    }
    proof {
        if pos < old_v.len() {
            lemma_seq_lt_total(old_v[pos as int], x@);
            assert(seq_lt(x@, old_v[pos as int]));
        }
    }
    v.insert(pos, x);
    let ghost nv = chars_views(v@);
    assert(nv =~= old_v.insert(pos as int, x@));
    assert forall|i: int, j: int| 0 <= i < j < nv.len() implies seq_lt(
        #[trigger] nv[i],
        #[trigger] nv[j],
    ) by {
        if j < pos {
        } else if j == pos {
        } else if i < pos {
            if j - 1 > pos {
                lemma_seq_lt_trans(x@, old_v[pos as int], old_v[j - 1]);
            }
            lemma_seq_lt_trans(old_v[i], x@, old_v[j - 1]);
        } else if i == pos {
            if j - 1 > pos {
                lemma_seq_lt_trans(x@, old_v[pos as int], old_v[j - 1]);
            }
        } else {
        }
    }
    assert forall|k: Seq<char>| nv.contains(k) <==> old_v.contains(k) || k == x@ by {
        if nv.contains(k) {
            let w = choose|w: int| 0 <= w < nv.len() && nv[w] == k;
            if w < pos {
                assert(old_v[w] == k);
            } else if w > pos {
                assert(old_v[w - 1] == k);
            }
        }
        if old_v.contains(k) {
            let w = choose|w: int| 0 <= w < old_v.len() && old_v[w] == k;
            if w < pos {
                assert(nv[w] == k);
            } else {
                assert(nv[w + 1] == k);
            }
        }
        if k == x@ {
            assert(nv[pos as int] == k);
        }
    }
}

/// The characters of the artist a track is filed under.
fn artist_chars(t: &Track) -> (r: Vec<char>)
    ensures
        r@ == artist_of(t@),
{
    if t.artists.len() == 0 {
        let v = vec!['U', 'n', 'k', 'n', 'o', 'w', 'n', ' ', 'A', 'r', 't', 'i', 's', 't'];
        assert(v@ =~= unknown_artist());
        v
    } else {
        chars_of(t.artists[0].as_str())
    }
}

/// Sorted distinct artist names of the tracks.
fn artist_keys(tracks: &Vec<Track>) -> (keys: Vec<Vec<char>>)
    ensures
        strictly_sorted(chars_views(keys@)),
        forall|k: Seq<char>|
            chars_views(keys@).contains(k) <==> exists|i: int|
                0 <= i < tracks@.len() && artist_of(#[trigger] tracks@[i]@) == k,
{
    let mut keys: Vec<Vec<char>> = Vec::new();
    let mut i: usize = 0;
    while i < tracks.len()
        invariant
            i <= tracks@.len(),
            strictly_sorted(chars_views(keys@)),
            forall|k: Seq<char>|
                chars_views(keys@).contains(k) <==> exists|j: int|
                    0 <= j < i && artist_of(#[trigger] tracks@[j]@) == k,
        decreases tracks@.len() - i,
    {
        let a = artist_chars(&tracks[i]);
        insert_sorted(&mut keys, a);
        proof {
            assert forall|k: Seq<char>|
                chars_views(keys@).contains(k) <==> exists|j: int|
                    0 <= j < i + 1 && artist_of(#[trigger] tracks@[j]@) == k by {
                if exists|j: int| 0 <= j < i + 1 && artist_of(#[trigger] tracks@[j]@) == k {
                    let j = choose|j: int| 0 <= j < i + 1 && artist_of(#[trigger] tracks@[j]@) == k;
                    if j < i {
                        assert(exists|j2: int| 0 <= j2 < i && artist_of(#[trigger] tracks@[j2]@) == k);
                    }
                }
            }
        }
        i = i + 1;
    }
    keys
}

/// Sorted distinct album names of the tracks filed under `artist`.
fn album_keys(tracks: &Vec<Track>, artist: &Vec<char>) -> (keys: Vec<Vec<char>>)
    ensures
        strictly_sorted(chars_views(keys@)),
        forall|k: Seq<char>|
            chars_views(keys@).contains(k) <==> exists|i: int|
                0 <= i < tracks@.len() && artist_of(#[trigger] tracks@[i]@) == artist@
                    && tracks@[i]@.album == k,
{
    let mut keys: Vec<Vec<char>> = Vec::new();
    let mut i: usize = 0;
    while i < tracks.len()
        invariant
            i <= tracks@.len(),
            strictly_sorted(chars_views(keys@)),
            forall|k: Seq<char>|
                chars_views(keys@).contains(k) <==> exists|j: int|
                    0 <= j < i && artist_of(#[trigger] tracks@[j]@) == artist@ && tracks@[j]@.album
                        == k,
        decreases tracks@.len() - i,
    {
        let a = artist_chars(&tracks[i]);
        let ghost before = chars_views(keys@);
        if chars_eq(a.as_slice(), artist.as_slice()) {
            let n = chars_of(tracks[i].album.as_str());
            insert_sorted(&mut keys, n);
        }
        proof {
            assert forall|k: Seq<char>|
                chars_views(keys@).contains(k) <==> exists|j: int|
                    0 <= j < i + 1 && artist_of(#[trigger] tracks@[j]@) == artist@
                        && tracks@[j]@.album == k by {
                if exists|j: int|
                    0 <= j < i + 1 && artist_of(#[trigger] tracks@[j]@) == artist@
                        && tracks@[j]@.album == k {
                    let j = choose|j: int|
                        0 <= j < i + 1 && artist_of(#[trigger] tracks@[j]@) == artist@
                            && tracks@[j]@.album == k;
                    if j < i {
                        assert(exists|j2: int|
                            0 <= j2 < i && artist_of(#[trigger] tracks@[j2]@) == artist@
                                && tracks@[j2]@.album == k);
                    }
                }
            }
        }
        i = i + 1;
    }
    keys
}

/// The tracks of one album of one artist, in input order, sorted by track number.
fn album_tracks(tracks: &Vec<Track>, artist: &Vec<char>, album: &Vec<char>) -> (r: Vec<Track>)
    ensures
        tracks_view(r@) == stable_sort(
            tracks_view(tracks@).filter(in_group(artist@, album@)),
            gt_track_no(),
        ),
{
    let mut picked: Vec<Track> = Vec::new();
    let mut i: usize = 0;
    let ghost all = tracks_view(tracks@);
    while i < tracks.len()
        invariant
            i <= tracks@.len(),
            all == tracks_view(tracks@),
            tracks_view(picked@) == all.subrange(0, i as int).filter(in_group(artist@, album@)),
        decreases tracks@.len() - i,
    {
        let a = artist_chars(&tracks[i]);
        let n = chars_of(tracks[i].album.as_str());
        proof {
            all.subrange(0, i as int).lemma_filter_push(all[i as int], in_group(artist@, album@));
            assert(all.subrange(0, i + 1) =~= all.subrange(0, i as int).push(all[i as int]));
        }
        if chars_eq(a.as_slice(), artist.as_slice()) && chars_eq(n.as_slice(), album.as_slice()) {
            picked.push(tracks[i].duplicate());
            assert(tracks_view(picked@) =~= all.subrange(0, i + 1).filter(
                in_group(artist@, album@),
            ));
        }
        i = i + 1;
    }
    assert(all.subrange(0, all.len() as int) =~= all);
    sort_by_track_no(picked)
}

/// A track's sort key within its album.
fn track_no_of(t: &Track) -> (k: u32)
    ensures
        k as int == track_no_key(t@),
{
    match t.track_no {
        Some(n) => n,
        None => u32::MAX,
    }
}

/// Stable sort of tracks by track number (tracks without one last).
fn sort_by_track_no(v: Vec<Track>) -> (r: Vec<Track>)
    ensures
        tracks_view(r@) == stable_sort(tracks_view(v@), gt_track_no()),
{
    let mut out: Vec<Track> = Vec::new();
    let mut i: usize = 0;
    let ghost src = tracks_view(v@);
    while i < v.len()
        invariant
            i <= v@.len(),
            src == tracks_view(v@),
            tracks_view(out@) == stable_sort(src.subrange(0, i as int), gt_track_no()),
        decreases v@.len() - i,
    {
        let x = v[i].duplicate();
        let key = track_no_of(&x);
        let ghost cur = tracks_view(out@);
        let mut j: usize = out.len();
        while j > 0 && track_no_of(&out[j - 1]) > key
            invariant
                j <= out@.len(),
                cur == tracks_view(out@),
                key as int == track_no_key(x@),
                forall|k: int| j <= k < cur.len() ==> (gt_track_no())(#[trigger] cur[k], x@),
            decreases j,
        {
            j = j - 1;
        }
        proof {
            lemma_sort_insert_at(cur, x@, gt_track_no(), j as int);
            assert(src.subrange(0, i + 1).drop_last() =~= src.subrange(0, i as int));
        }
        out.insert(j, x);
        assert(tracks_view(out@) =~= cur.insert(j as int, x@));
        i = i + 1;
    }
    assert(src.subrange(0, src.len() as int) =~= src);
    out
}

/// Stable sort of tracks by lower-cased name.
fn sort_by_lower_name(v: Vec<Track>) -> (r: Vec<Track>)
    ensures
        tracks_view(r@) == stable_sort(tracks_view(v@), gt_lower_name()),
{
    let mut out: Vec<Track> = Vec::new();
    let mut keys: Vec<Vec<char>> = Vec::new();
    let mut i: usize = 0;
    let ghost src = tracks_view(v@);
    while i < v.len()
        invariant
            i <= v@.len(),
            src == tracks_view(v@),
            tracks_view(out@) == stable_sort(src.subrange(0, i as int), gt_lower_name()),
            keys@.len() == out@.len(),
            forall|k: int| 0 <= k < keys@.len() ==> (#[trigger] keys@[k])@ == lowercase(out@[k].name@),
        decreases v@.len() - i,
    {
        let x = v[i].duplicate();
        let lower = to_lowercase(x.name.as_str());
        let key = chars_of(lower.as_str());
        let ghost cur = tracks_view(out@);
        let mut j: usize = out.len();
        while j > 0 && chars_lt(key.as_slice(), keys[j - 1].as_slice())
            invariant
                j <= out@.len(),
                keys@.len() == out@.len(),
                forall|k: int| 0 <= k < keys@.len() ==> (#[trigger] keys@[k])@ == lowercase(out@[k].name@),
                cur == tracks_view(out@),
                key@ == lowercase(x@.name),
                forall|k: int| j <= k < cur.len() ==> (gt_lower_name())(#[trigger] cur[k], x@),
            decreases j,
        {
            j = j - 1;
        }
        proof {
            if j > 0 {
                assert(keys@[j - 1]@ == lowercase(cur[j - 1].name));
            }
            lemma_sort_insert_at(cur, x@, gt_lower_name(), j as int);
            assert(src.subrange(0, i + 1).drop_last() =~= src.subrange(0, i as int));
        }
        out.insert(j, x);
        keys.insert(j, key);
        assert(tracks_view(out@) =~= cur.insert(j as int, x@));
        i = i + 1;
    }
    assert(src.subrange(0, src.len() as int) =~= src);
    out
}

impl Library {
    /// Artist names are strictly increasing, so each names one entry.
    #[verifier::type_invariant]
    closed spec fn inv(&self) -> bool {
        strictly_sorted(self.artists@.map_values(|e: ArtistEntry| e.name@))
    }

    /// The albums filed under `artist`; none for an artist not in the library.
    pub open spec fn albums_for(&self, artist: Seq<char>) -> Seq<AlbumView> {
        if self.artist_list().contains(artist) {
            self.albums_at(self.artist_index(artist))
        } else {
            Seq::empty()
        }
    }

    /// A position in the artist list holding `artist`, if there is one.
    pub open spec fn artist_index(&self, artist: Seq<char>) -> int {
        choose|a: int| 0 <= a < self.artist_list().len() && self.artist_list()[a] == artist
    }

    /// The artist names, in order.
    pub closed spec fn artist_list(&self) -> Seq<Seq<char>> {
        self.artists@.map_values(|e: ArtistEntry| e.name@)
    }

    /// The albums filed under the artist at position `a`.
    pub closed spec fn albums_at(&self, a: int) -> Seq<AlbumView> {
        albums_view(self.artists@[a].albums@)
    }

    /// The song list.
    pub closed spec fn track_list(&self) -> Seq<TrackView> {
        tracks_view(self.tracks@)
    }

    /// The albums of all artists, artist after artist.
    pub open spec fn albums_flat(&self) -> Seq<AlbumView> {
        Seq::new(self.artist_list().len(), |a: int| self.albums_at(a)).flatten()
    }

    /// `self` is the library built from `tracks`: artists strictly sorted, exactly the
    /// artists the tracks are filed under, each with the album list `albums_built`
    /// describes, and the song list sorted by lower-cased name.
    pub open spec fn built_from(&self, tracks: Seq<TrackView>) -> bool {
        &&& strictly_sorted(self.artist_list())
        &&& forall|k: Seq<char>|
            self.artist_list().contains(k) <==> exists|i: int|
                0 <= i < tracks.len() && artist_of(#[trigger] tracks[i]) == k
        &&& forall|a: int|
            0 <= a < self.artist_list().len() ==> albums_built(
                tracks,
                self.artist_list()[a],
                #[trigger] self.albums_at(a),
            )
        &&& self.track_list() == stable_sort(tracks, gt_lower_name())
    }

    /// With strictly sorted artist names, an artist's albums are the ones filed at
    /// its position in the artist list.
    pub proof fn lemma_albums_for_at(&self, pos: int)
        requires
            strictly_sorted(self.artist_list()),
            0 <= pos < self.artist_list().len(),
        ensures
            self.albums_for(self.artist_list()[pos]) == self.albums_at(pos),
    {
        let l = self.artist_list();
        let k = l[pos];
        assert(l.contains(k));
        let c = self.artist_index(k);
        assert(0 <= c < l.len() && l[c] == k);
        if c < pos {
            assert(seq_lt(l[c], l[pos]));
            lemma_seq_lt_irrefl(k);
        } else if c > pos {
            assert(seq_lt(l[pos], l[c]));
            lemma_seq_lt_irrefl(k);
        }
    }

    /// No artist has two albums of one name: the album names of every artist are
    /// strictly increasing.
    pub proof fn lemma_album_names_distinct(&self, tracks: Seq<TrackView>, k: Seq<char>)
        requires
            self.built_from(tracks),
        ensures
            strictly_sorted(album_names(self.albums_for(k))),
            forall|b: int, c: int|
                0 <= b < c < self.albums_for(k).len() ==> #[trigger] self.albums_for(k)[b].name
                    != #[trigger] self.albums_for(k)[c].name,
    {
        let l = self.artist_list();
        if l.contains(k) {
            let a = choose|a: int| 0 <= a < l.len() && l[a] == k;
            self.lemma_albums_for_at(a);
            assert(albums_built(tracks, k, self.albums_at(a)));
        } else {
            assert(album_names(self.albums_for(k)) =~= Seq::<Seq<char>>::empty());
        }
        let al = self.albums_for(k);
        assert forall|b: int, c: int| 0 <= b < c < al.len() implies #[trigger] al[b].name
            != #[trigger] al[c].name by {
            assert(seq_lt(album_names(al)[b], album_names(al)[c]));
            if al[b].name == al[c].name {
                lemma_seq_lt_irrefl(al[b].name);
            }
        }
    }

    /// Every input track is filed under its artist, in that artist's album named as
    /// the track's album, which holds it.
    pub proof fn lemma_track_filed(&self, tracks: Seq<TrackView>, i: int)
        requires
            self.built_from(tracks),
            0 <= i < tracks.len(),
        ensures
            self.artist_list().contains(artist_of(tracks[i])),
            exists|b: int|
                0 <= b < self.albums_for(artist_of(tracks[i])).len()
                    && #[trigger] self.albums_for(artist_of(tracks[i]))[b].name == tracks[i].album
                    && self.albums_for(artist_of(tracks[i]))[b].artist == artist_of(tracks[i])
                    && self.albums_for(artist_of(tracks[i]))[b].tracks.contains(tracks[i]),
    {
        let t = tracks[i];
        let k = artist_of(t);
        let l = self.artist_list();
        assert(l.contains(k));
        let a = choose|a: int| 0 <= a < l.len() && l[a] == k;
        self.lemma_albums_for_at(a);
        let al = self.albums_at(a);
        assert(albums_built(tracks, k, al));
        assert(artist_has_album(tracks, k, t.album));
        assert(album_names(al).contains(t.album));
        let b = choose|b: int| 0 <= b < album_names(al).len() && album_names(al)[b] == t.album;
        assert(al[b].name == t.album);
        let g = tracks.filter(in_group(k, t.album));
        assert(in_group(k, t.album)(t));
        tracks.lemma_filter_contains_rev(in_group(k, t.album), t);
        assert(g.contains(t));
        lemma_stable_sort_multiset(g, gt_track_no());
        broadcast use vstd::seq_lib::group_to_multiset_ensures;
        assert(g.to_multiset().count(t) > 0);
        assert(al[b].tracks == stable_sort(g, gt_track_no()));
        assert(al[b].tracks.to_multiset().count(t) > 0);
        assert(al[b].tracks.contains(t));
    }

    /// Build a library index from a flat list of tracks: artists sorted by name, each
    /// with its albums sorted by name, each album holding its tracks in input order
    /// sorted by track number; and all tracks sorted by lower-cased name.
    #[verifier::spinoff_prover]
    #[verifier::rlimit(30)]
    pub fn from_tracks(tracks: Vec<Track>) -> (lib: Self)
        ensures
            strictly_sorted(lib.artist_list()),
            forall|k: Seq<char>|
                lib.artist_list().contains(k) <==> exists|i: int|
                    0 <= i < tracks@.len() && artist_of(#[trigger] tracks@[i]@) == k,
            forall|a: int|
                0 <= a < lib.artist_list().len() ==> albums_built(
                    tracks_view(tracks@),
                    lib.artist_list()[a],
                    #[trigger] lib.albums_at(a),
                ),
            lib.track_list() == stable_sort(tracks_view(tracks@), gt_lower_name()),
            lib.built_from(tracks_view(tracks@)),
    {
        let keys = artist_keys(&tracks);
        let mut artists: Vec<ArtistEntry> = Vec::new();
        let mut a: usize = 0;
        while a < keys.len()
            invariant
                a <= keys@.len(),
                artists@.len() == a,
                forall|q: int| 0 <= q < a ==> (#[trigger] artists@[q]).name@ == keys@[q]@,
                forall|q: int|
                    0 <= q < a ==> albums_built(
                        tracks_view(tracks@),
                        keys@[q]@,
                        albums_view(#[trigger] artists@[q].albums@),
                    ),
            decreases keys@.len() - a,
        {
            let names = album_keys(&tracks, &keys[a]);
            let mut albums: Vec<Album> = Vec::new();
            let mut b: usize = 0;
            while b < names.len()
                invariant
                    b <= names@.len(),
                    a < keys@.len(),
                    albums@.len() == b,
                    forall|q: int|
                        0 <= q < b ==> (#[trigger] albums@[q]).name@ == names@[q]@
                            && albums@[q].artist@ == keys@[a as int]@ && tracks_view(
                            albums@[q].tracks@,
                        ) == stable_sort(
                            tracks_view(tracks@).filter(
                                in_group(keys@[a as int]@, names@[q]@),
                            ),
                            gt_track_no(),
                        ),
                decreases names@.len() - b,
            {
                let t = album_tracks(&tracks, &keys[a], &names[b]);
                albums.push(
                    Album {
                        name: string_from_chars(names[b].as_slice()),
                        artist: string_from_chars(keys[a].as_slice()),
                        tracks: t,
                    },
                );
                b = b + 1;
            }
            let ghost av = albums_view(albums@);
            let ghost tv = tracks_view(tracks@);
            assert(album_names(av) =~= chars_views(names@));
            assert forall|n: Seq<char>| #[trigger] album_names(av).contains(n) <==> artist_has_album(tv, keys@[a as int]@, n) by {
                if artist_has_album(tv, keys@[a as int]@, n) {
                    let i = choose|i: int| 0 <= i < tv.len() && artist_of(#[trigger] tv[i]) == keys@[a as int]@ && tv[i].album == n;
                    assert(tracks@[i]@ == tv[i]);
                }
                if chars_views(names@).contains(n) {
                    let i = choose|i: int| 0 <= i < tracks@.len() && artist_of(#[trigger] tracks@[i]@) == keys@[a as int]@ && tracks@[i]@.album == n;
                    assert(tracks@[i]@ == tv[i]);
                }
            }
            artists.push(ArtistEntry { name: string_from_chars(keys[a].as_slice()), albums });
            a = a + 1;
        }
        let ghost tv0 = tracks_view(tracks@);
        proof {
            assert forall|k: Seq<char>| chars_views(keys@).contains(k) <==> exists|i: int|
                0 <= i < tv0.len() && artist_of(#[trigger] tv0[i]) == k by {
                if chars_views(keys@).contains(k) {
                    let i = choose|i: int|
                        0 <= i < tracks@.len() && artist_of(#[trigger] tracks@[i]@) == k;
                    assert(tv0[i] == tracks@[i]@);
                }
                if exists|i: int| 0 <= i < tv0.len() && artist_of(#[trigger] tv0[i]) == k {
                    let i = choose|i: int| 0 <= i < tv0.len() && artist_of(#[trigger] tv0[i]) == k;
                    assert(tv0[i] == tracks@[i]@);
                }
            }
        }
        let sorted = sort_by_lower_name(tracks);
        assert(artists@.map_values(|e: ArtistEntry| e.name@) =~= chars_views(keys@));
        let lib = Library { artists, tracks: sorted };
        assert(lib.artist_list() =~= chars_views(keys@));
        lib
    }

    /// Sorted list of artist names.
    pub fn artist_names(&self) -> (names: Vec<&String>)
        ensures
            names@.map_values(|s: &String| s@) == self.artist_list(),
    {
        let mut names: Vec<&String> = Vec::new();
        let mut i: usize = 0;
        while i < self.artists.len()
            invariant
                i <= self.artists@.len(),
                names@.len() == i,
                forall|k: int| 0 <= k < i ==> (#[trigger] names@[k])@ == self.artists@[k].name@,
            decreases self.artists@.len() - i,
        {
            names.push(&self.artists[i].name);
            i = i + 1;
        }
        assert(names@.map_values(|s: &String| s@) =~= self.artist_list());
        names
    }

    /// Albums for a given artist name (none for an unknown artist).
    pub fn albums_by_artist(&self, artist: &str) -> (albums: &[Album])
        ensures
            albums_view(albums@) == self.albums_for(artist@),
            forall|a: int|
                0 <= a < self.artist_list().len() && self.artist_list()[a] == artist@
                    ==> albums_view(albums@) == #[trigger] self.albums_at(a),
            !self.artist_list().contains(artist@) ==> albums@.len() == 0,
    {
        let want = chars_of(artist);
        let mut i: usize = 0;
        while i < self.artists.len()
            invariant
                i <= self.artists@.len(),
                want@ == artist@,
                forall|k: int| 0 <= k < i ==> self.artist_list()[k] != artist@,
            decreases self.artists@.len() - i,
        {
            let name = chars_of(self.artists[i].name.as_str());
            if chars_eq(name.as_slice(), want.as_slice()) {
                assert(self.artist_list()[i as int] == artist@);
                let r = self.artists[i].albums.as_slice();
                assert(albums_view(r@) == self.albums_at(i as int));
                proof {
                    use_type_invariant(self);
                    let c = self.artist_index(artist@);
                    assert(0 <= c < self.artist_list().len() && self.artist_list()[c] == artist@);
                    if c != i {
                        if c < i {
                            assert(seq_lt(self.artist_list()[c], self.artist_list()[i as int]));
                        } else {
                            assert(seq_lt(self.artist_list()[i as int], self.artist_list()[c]));
                        }
                        lemma_seq_lt_irrefl(artist@);
                    }
                    assert forall|a: int|
                        0 <= a < self.artist_list().len() && self.artist_list()[a] == artist@
                        implies a == i by {
                        if a < i {
                            assert(seq_lt(self.artist_list()[a], self.artist_list()[i as int]));
                            lemma_seq_lt_irrefl(artist@);
                        } else if a > i {
                            assert(seq_lt(self.artist_list()[i as int], self.artist_list()[a]));
                            lemma_seq_lt_irrefl(artist@);
                        }
                    }
                }
                return r;
            }
            i = i + 1;
        }
        assert(!self.artist_list().contains(artist@));
        let none: &[Album] = &[];
        assert(albums_view(none@) =~= Seq::<AlbumView>::empty());
        none
    }

    /// All albums across all artists, sorted by name (stable across artists).
    pub fn all_albums(&self) -> (albums: Vec<&Album>)
        ensures
            albums@.map_values(|a: &Album| a@) == stable_sort(self.albums_flat(), gt_album_name()),
            ordered_by(albums@.map_values(|a: &Album| a@), gt_album_name()),
            albums@.map_values(|a: &Album| a@).to_multiset() == self.albums_flat().to_multiset(),
    {
        let mut flat: Vec<&Album> = Vec::new();
        let ghost per = self.artists@.map_values(|e: ArtistEntry| albums_view(e.albums@));
        let mut i: usize = 0;
        while i < self.artists.len()
            invariant
                i <= self.artists@.len(),
                per == self.artists@.map_values(|e: ArtistEntry| albums_view(e.albums@)),
                flat@.map_values(|a: &Album| a@) == per.subrange(0, i as int).flatten_alt(),
            decreases self.artists@.len() - i,
        {
            let albums = &self.artists[i].albums;
            let ghost start = flat@.map_values(|a: &Album| a@);
            let mut j: usize = 0;
            while j < albums.len()
                invariant
                    j <= albums@.len(),
                    start.len() <= flat@.len(),
                    flat@.map_values(|a: &Album| a@) == start + albums_view(albums@).subrange(
                        0,
                        j as int,
                    ),
                decreases albums@.len() - j,
            {
                let ghost prev = flat@;
                let item = &albums[j];
                flat.push(item);
                assert(flat@ == prev.push(item));
                assert(item@ == albums_view(albums@)[j as int]);
                assert(flat@.map_values(|a: &Album| a@) =~= prev.map_values(|a: &Album| a@).push(item@));
                j = j + 1;
                assert(flat@.map_values(|a: &Album| a@) =~= start + albums_view(albums@).subrange(
                    0,
                    j as int,
                ));
            }
            assert(albums_view(albums@).subrange(0, albums@.len() as int) =~= albums_view(
                albums@,
            ));
            assert(per.subrange(0, i + 1).drop_last() =~= per.subrange(0, i as int));
            i = i + 1;
        }
        proof {
            assert(per.subrange(0, per.len() as int) =~= per);
            per.lemma_flatten_and_flatten_alt_are_equivalent();
            assert(per =~= Seq::new(self.artist_list().len(), |a: int| self.albums_at(a)));
            lemma_gt_album_name_order();
            lemma_stable_sort_ordered(self.albums_flat(), gt_album_name());
            lemma_stable_sort_multiset(self.albums_flat(), gt_album_name());
        }
        sort_albums_by_name(flat)
    }

    /// All tracks (sorted by name).
    pub fn all_tracks(&self) -> (tracks: &[Track])
        ensures
            tracks_view(tracks@) == self.track_list(),
    {
        self.tracks.as_slice()
    }

    /// What a search finds, against its query: a track of the library is found exactly
    /// when its lower-cased name, its lower-cased album name, or one of its lower-cased
    /// artist names contains the lower-cased query; nothing else is found.
    pub proof fn lemma_search_finds(&self, query: Seq<char>, t: TrackView)
        ensures
            self.track_list().filter(matches_query(lowercase(query))).contains(t) <==> {
                &&& self.track_list().contains(t)
                &&& {
                    ||| has_infix(lowercase(t.name), lowercase(query))
                    ||| has_infix(lowercase(t.album), lowercase(query))
                    ||| exists|i: int|
                        0 <= i < t.artists.len() && has_infix(
                            lowercase(#[trigger] t.artists[i]),
                            lowercase(query),
                        )
                }
            },
    {
        let all = self.track_list();
        let p = matches_query(lowercase(query));
        if all.contains(t) && p(t) {
            all.lemma_filter_contains_rev(p, t);
        }
        if all.filter(p).contains(t) {
            lemma_filter_member(all, p, t);
            let k = choose|k: int| 0 <= k < all.filter(p).len() && all.filter(p)[k] == t;
            all.lemma_filter_pred(p, k);
        }
        assert(p(t) == track_matches(t, lowercase(query)));
    }

    /// Case-insensitive substring search across track names, artist names, and album names.
    pub fn search(&self, query: &str) -> (found: Vec<&Track>)
        ensures
            found@.map_values(|t: &Track| t@) == self.track_list().filter(
                matches_query(lowercase(query@)),
            ),
    {
        let q_string = to_lowercase(query);
        let q = chars_of(q_string.as_str());
        let mut found: Vec<&Track> = Vec::new();
        let ghost all = self.track_list();
        let mut i: usize = 0;
        while i < self.tracks.len()
            invariant
                i <= self.tracks@.len(),
                all == self.track_list(),
                q@ == lowercase(query@),
                found@.map_values(|t: &Track| t@) == all.subrange(0, i as int).filter(
                    matches_query(q@),
                ),
            decreases self.tracks@.len() - i,
        {
            let t = &self.tracks[i];
            let hit = track_hits(t, q.as_slice());
            proof {
                all.subrange(0, i as int).lemma_filter_push(all[i as int], matches_query(q@));
                assert(all.subrange(0, i + 1) =~= all.subrange(0, i as int).push(all[i as int]));
            }
            if hit {
                found.push(t);
            }
            assert(found@.map_values(|t: &Track| t@) =~= all.subrange(0, i + 1).filter(
                matches_query(q@),
            ));
            i = i + 1;
        }
        assert(all.subrange(0, all.len() as int) =~= all);
        found
    }
}

/// Whether the track matches the lower-cased query.
fn track_hits(t: &Track, q: &[char]) -> (b: bool)
    ensures
        b == track_matches(t@, q@),
{
    let name = chars_of(to_lowercase(t.name.as_str()).as_str());
    if chars_contain(name.as_slice(), q) {
        return true;
    }
    let album = chars_of(to_lowercase(t.album.as_str()).as_str());
    if chars_contain(album.as_slice(), q) {
        return true;
    }
    let mut i: usize = 0;
    while i < t.artists.len()
        invariant
            i <= t.artists@.len(),
            !has_infix(lowercase(t@.name), q@),
            !has_infix(lowercase(t@.album), q@),
            forall|k: int| 0 <= k < i ==> !has_infix(lowercase(#[trigger] t@.artists[k]), q@),
        decreases t.artists@.len() - i,
    {
        let a = chars_of(to_lowercase(t.artists[i].as_str()).as_str());
        if chars_contain(a.as_slice(), q) {
            assert(has_infix(lowercase(t@.artists[i as int]), q@));
            return true;
        }
        i = i + 1;
    }
    false
}

/// Stable sort of album references by name.
fn sort_albums_by_name(v: Vec<&Album>) -> (r: Vec<&Album>)
    ensures
        r@.map_values(|a: &Album| a@) == stable_sort(
            v@.map_values(|a: &Album| a@),
            gt_album_name(),
        ),
{
    let mut out: Vec<&Album> = Vec::new();
    let mut keys: Vec<Vec<char>> = Vec::new();
    let mut i: usize = 0;
    let ghost src = v@.map_values(|a: &Album| a@);
    while i < v.len()
        invariant
            i <= v@.len(),
            src == v@.map_values(|a: &Album| a@),
            out@.map_values(|a: &Album| a@) == stable_sort(
                src.subrange(0, i as int),
                gt_album_name(),
            ),
            keys@.len() == out@.len(),
            forall|k: int| 0 <= k < keys@.len() ==> (#[trigger] keys@[k])@ == out@[k].name@,
        decreases v@.len() - i,
    {
        let x = v[i];
        let key = chars_of(x.name.as_str());
        let ghost cur = out@.map_values(|a: &Album| a@);
        let mut j: usize = out.len();
        while j > 0 && chars_lt(key.as_slice(), keys[j - 1].as_slice())
            invariant
                j <= out@.len(),
                keys@.len() == out@.len(),
                forall|k: int| 0 <= k < keys@.len() ==> (#[trigger] keys@[k])@ == out@[k].name@,
                cur == out@.map_values(|a: &Album| a@),
                key@ == x@.name,
                forall|k: int| j <= k < cur.len() ==> (gt_album_name())(#[trigger] cur[k], x@),
            decreases j,
        {
            j = j - 1;
        }
        proof {
            if j > 0 {
                assert(keys@[j - 1]@ == cur[j - 1].name);
            }
            lemma_sort_insert_at(cur, x@, gt_album_name(), j as int);
            assert(src.subrange(0, i + 1).drop_last() =~= src.subrange(0, i as int));
        }
        out.insert(j, x);
        keys.insert(j, key);
        assert(out@.map_values(|a: &Album| a@) =~= cur.insert(j as int, x@));
        i = i + 1;
    }
    assert(src.subrange(0, src.len() as int) =~= src);
    out
}

/// The song list is ordered by lower-cased name and holds exactly the input tracks.
pub proof fn lemma_song_list_sorted_permutation(tracks: Seq<TrackView>)
    ensures
        ordered_by(stable_sort(tracks, gt_lower_name()), gt_lower_name()),
        stable_sort(tracks, gt_lower_name()).to_multiset() == tracks.to_multiset(),
{
    lemma_gt_lower_name_order();
    lemma_stable_sort_ordered(tracks, gt_lower_name());
    lemma_stable_sort_multiset(tracks, gt_lower_name());
}

/// An album's tracks are ordered by track number and are exactly the input tracks of
/// that artist and album.
pub proof fn lemma_album_tracks_sorted_permutation(
    tracks: Seq<TrackView>,
    artist: Seq<char>,
    album: Seq<char>,
)
    ensures
        ordered_by(
            stable_sort(tracks.filter(in_group(artist, album)), gt_track_no()),
            gt_track_no(),
        ),
        stable_sort(tracks.filter(in_group(artist, album)), gt_track_no()).to_multiset()
            == tracks.filter(in_group(artist, album)).to_multiset(),
{
    lemma_gt_track_no_order();
    lemma_stable_sort_ordered(tracks.filter(in_group(artist, album)), gt_track_no());
    lemma_stable_sort_multiset(tracks.filter(in_group(artist, album)), gt_track_no());
}


/// The tracks of a list of albums, album after album.
pub open spec fn tracks_of_albums(albums: Seq<AlbumView>) -> Seq<TrackView> {
    albums.map_values(|al: AlbumView| al.tracks).flatten()
}

/// How often `x` occurs in the parts of `ss`, summed.
spec fn count_sum(ss: Seq<Seq<TrackView>>, x: TrackView) -> nat
    decreases ss.len(),
{
    if ss.len() == 0 {
        0
    } else {
        count_sum(ss.drop_last(), x) + ss.last().to_multiset().count(x)
    }
}

/// Occurrences in a flattened sequence add up over its parts.
proof fn lemma_flatten_count(ss: Seq<Seq<TrackView>>, x: TrackView)
    ensures
        ss.flatten().to_multiset().count(x) == count_sum(ss, x),
    decreases ss.len(),
{
    broadcast use vstd::seq_lib::group_to_multiset_ensures;

    if ss.len() > 0 {
        lemma_flatten_count(ss.drop_last(), x);
        assert(ss.drop_last().push(ss.last()) =~= ss);
        ss.drop_last().lemma_flatten_push(ss.last());
        vstd::seq_lib::lemma_multiset_commutative(ss.drop_last().flatten(), ss.last());
    } else {
        assert(ss.flatten() =~= Seq::<TrackView>::empty());
    }
}

/// A sum in which only the part at `j` may hold `x` is that part's count.
proof fn lemma_count_sum_single(ss: Seq<Seq<TrackView>>, x: TrackView, j: int)
    requires
        forall|i: int| 0 <= i < ss.len() && i != j ==> (#[trigger] ss[i]).to_multiset().count(x) == 0,
    ensures
        count_sum(ss, x) == (if 0 <= j < ss.len() {
            ss[j].to_multiset().count(x)
        } else {
            0
        }),
    decreases ss.len(),
{
    if ss.len() > 0 {
        let d = ss.drop_last();
        assert forall|i: int| 0 <= i < d.len() && i != j implies (#[trigger] d[i]).to_multiset().count(x) == 0 by {
            assert(d[i] == ss[i]);
        }
        lemma_count_sum_single(d, x, j);
        if j == ss.len() - 1 {
            lemma_count_sum_single(d, x, -1);
        }
    }
}

/// How often a filter keeps `x`: as often as `x` occurs, if it passes, else never.
proof fn lemma_filter_count(s: Seq<TrackView>, p: spec_fn(TrackView) -> bool, x: TrackView)
    ensures
        s.filter(p).to_multiset().count(x) == (if p(x) {
            s.to_multiset().count(x)
        } else {
            0
        }),
    decreases s.len(),
{
    broadcast use vstd::seq_lib::group_to_multiset_ensures;

    if s.len() > 0 {
        lemma_filter_count(s.drop_last(), p, x);
        assert(s.drop_last().push(s.last()) =~= s);
        s.drop_last().lemma_filter_push(s.last(), p);
    } else {
        assert(s.filter(p) =~= Seq::<TrackView>::empty()) by {
            reveal(Seq::filter);
        }
    }
}

/// The tracks of a flattened album list are the tracks of each part, in turn.
proof fn lemma_album_tracks_flatten(ss: Seq<Seq<AlbumView>>)
    ensures
        tracks_of_albums(ss.flatten()) == Seq::new(ss.len(), |i: int| tracks_of_albums(ss[i])).flatten(),
    decreases ss.len(),
{
    let rhs = Seq::new(ss.len(), |i: int| tracks_of_albums(ss[i]));
    if ss.len() == 0 {
        assert(ss.flatten() =~= Seq::<AlbumView>::empty());
        assert(tracks_of_albums(ss.flatten()) =~= Seq::<TrackView>::empty());
        assert(rhs.flatten() =~= Seq::<TrackView>::empty());
    } else {
        let d = ss.drop_last();
        lemma_album_tracks_flatten(d);
        assert(d.push(ss.last()) =~= ss);
        d.lemma_flatten_push(ss.last());
        let f = |al: AlbumView| al.tracks;
        assert((d.flatten() + ss.last()).map_values(f) =~= d.flatten().map_values(f) + ss.last().map_values(f));
        vstd::seq_lib::lemma_flatten_concat(d.flatten().map_values(f), ss.last().map_values(f));
        let rd = Seq::new(d.len(), |i: int| tracks_of_albums(d[i]));
        assert(rd.push(tracks_of_albums(ss.last())) =~= rhs);
        rd.lemma_flatten_push(tracks_of_albums(ss.last()));
    }
}

/// The albums built for `artist` hold each of that artist's tracks as often as the
/// input does, and no other track.
proof fn lemma_artist_count(tracks: Seq<TrackView>, k: Seq<char>, al: Seq<AlbumView>, x: TrackView)
    requires
        albums_built(tracks, k, al),
    ensures
        tracks_of_albums(al).to_multiset().count(x) == (if artist_of(x) == k {
            tracks.to_multiset().count(x)
        } else {
            0
        }),
{
    broadcast use vstd::seq_lib::group_to_multiset_ensures;

    let n = tracks.to_multiset().count(x);
    let ss = al.map_values(|a: AlbumView| a.tracks);
    lemma_flatten_count(ss, x);
    assert forall|b: int| 0 <= b < ss.len() implies (#[trigger] ss[b]).to_multiset().count(x) == (
    if artist_of(x) == k && x.album == al[b].name {
        n
    } else {
        0
    }) by {
        let g = tracks.filter(in_group(k, al[b].name));
        lemma_stable_sort_multiset(g, gt_track_no());
        lemma_filter_count(tracks, in_group(k, al[b].name), x);
    }
    if artist_of(x) == k && n > 0 {
        assert(tracks.contains(x));
        let i = choose|i: int| 0 <= i < tracks.len() && tracks[i] == x;
        assert(artist_has_album(tracks, k, x.album));
        assert(album_names(al).contains(x.album));
        let j = choose|j: int| 0 <= j < album_names(al).len() && album_names(al)[j] == x.album;
        assert forall|b: int| 0 <= b < ss.len() && b != j implies (#[trigger] ss[b]).to_multiset().count(x) == 0 by {
            if al[b].name == x.album {
                if b < j {
                    assert(seq_lt(album_names(al)[b], album_names(al)[j]));
                } else {
                    assert(seq_lt(album_names(al)[j], album_names(al)[b]));
                }
                lemma_seq_lt_irrefl(x.album);
            }
        }
        lemma_count_sum_single(ss, x, j);
    } else {
        lemma_count_sum_single(ss, x, -1);
    }
}

impl Library {
    /// No track is lost or repeated: taken together, the albums of all artists hold
    /// exactly the tracks the library was built from, each as often as it was given.
    pub proof fn lemma_albums_hold_every_track(&self, tracks: Seq<TrackView>)
        requires
            self.built_from(tracks),
        ensures
            tracks_of_albums(self.albums_flat()).to_multiset() == tracks.to_multiset(),
            tracks_of_albums(self.albums_flat()).len() == tracks.len(),
    {
        broadcast use vstd::seq_lib::group_to_multiset_ensures;

        let l = self.artist_list();
        let per = Seq::new(l.len(), |a: int| self.albums_at(a));
        lemma_album_tracks_flatten(per);
        let ts = Seq::new(per.len(), |a: int| tracks_of_albums(per[a]));
        assert forall|x: TrackView| #[trigger] tracks_of_albums(self.albums_flat()).to_multiset().count(x)
            == tracks.to_multiset().count(x) by {
            let n = tracks.to_multiset().count(x);
            lemma_flatten_count(ts, x);
            assert forall|a: int| 0 <= a < ts.len() implies (#[trigger] ts[a]).to_multiset().count(x) == (
            if artist_of(x) == l[a] {
                n
            } else {
                0
            }) by {
                assert(albums_built(tracks, l[a], self.albums_at(a)));
                lemma_artist_count(tracks, l[a], self.albums_at(a), x);
            }
            if n > 0 {
                assert(tracks.contains(x));
                let i = choose|i: int| 0 <= i < tracks.len() && tracks[i] == x;
                assert(l.contains(artist_of(tracks[i])));
                let a = choose|a: int| 0 <= a < l.len() && l[a] == artist_of(x);
                assert forall|b: int| 0 <= b < ts.len() && b != a implies (#[trigger] ts[b]).to_multiset().count(x) == 0 by {
                    if l[b] == artist_of(x) {
                        if b < a {
                            assert(seq_lt(l[b], l[a]));
                        } else {
                            assert(seq_lt(l[a], l[b]));
                        }
                        lemma_seq_lt_irrefl(artist_of(x));
                    }
                }
                lemma_count_sum_single(ts, x, a);
            } else {
                lemma_count_sum_single(ts, x, -1);
            }
        }
        assert(tracks_of_albums(self.albums_flat()).to_multiset() =~= tracks.to_multiset());
        assert(tracks_of_albums(self.albums_flat()).to_multiset().len() == tracks_of_albums(
            self.albums_flat(),
        ).len());
        assert(tracks.to_multiset().len() == tracks.len());
    }
}

/// What a filter keeps comes from the filtered sequence.
proof fn lemma_filter_member(s: Seq<TrackView>, p: spec_fn(TrackView) -> bool, x: TrackView)
    requires
        s.filter(p).contains(x),
    ensures
        s.contains(x),
    decreases s.len(),
{
    if s.len() == 0 {
        assert(s.filter(p) =~= Seq::<TrackView>::empty()) by {
            reveal(Seq::filter);
        }
    } else {
        let d = s.drop_last();
        assert(d.push(s.last()) =~= s);
        d.lemma_filter_push(s.last(), p);
        if x == s.last() {
            assert(s[s.len() - 1] == x);
        } else {
            if p(s.last()) {
                let k = choose|k: int| 0 <= k < s.filter(p).len() && s.filter(p)[k] == x;
                assert(k < d.filter(p).len());
                assert(d.filter(p)[k] == x);
            }
            lemma_filter_member(d, p, x);
            let k = choose|k: int| 0 <= k < d.len() && d[k] == x;
            assert(s[k] == x);
        }
    }
}

} // verus!
