//! Track metadata from tags, with fallbacks from the file name, and the text of a
//! ReplayGain tag.
use vstd::prelude::*;
use crate::paths::{path_stem, path_to_uri, stem_of, uri_of};
use crate::text::{chars_of, has_suffix, string_from_range, trim, trim_bounds};
use crate::types::{strings_view, Track};

verus! {

/// What a file's tags say about a track.
#[derive(Debug, Clone)]
pub struct TagInfo {
    pub title: Option<String>,
    pub artist: Option<String>,
    pub album: Option<String>,
    pub track: Option<u32>,
}

/// Name of a track without a title tag: the file's stem, or "Unknown".
pub open spec fn fallback_name(path: Seq<char>) -> Seq<char> {
    match path_stem(path) {
        Some(s) => s,
        None => "Unknown"@,
    }
}

/// Builds a track from the file's path, its tags (if it has any) and its duration:
/// the title falls back to the file's stem, the artist list holds the artist tag if
/// there is one, the album is empty without a tag.
pub fn track_from_tags(path: &str, tag: Option<TagInfo>, length_ms: u64) -> (t: Track)
    ensures
        t.uri@ == uri_of(path@),
        t.name@ == (match tag {
            Some(g) => match g.title {
                Some(x) => x@,
                None => fallback_name(path@),
            },
            None => fallback_name(path@),
        }),
        strings_view(t.artists@) == (match tag {
            Some(g) => match g.artist {
                Some(a) => seq![a@],
                None => Seq::empty(),
            },
            None => Seq::empty(),
        }),
        t.album@ == (match tag {
            Some(g) => match g.album {
                Some(a) => a@,
                None => Seq::empty(),
            },
            None => Seq::empty(),
        }),
        t.length == length_ms,
        t.track_no == (match tag {
            Some(g) => g.track,
            None => None,
        }),
{
    let (title, artist, album, track_no) = match tag {
        Some(g) => (g.title, g.artist, g.album, g.track),
        None => (None, None, None, None),
    };
    let name = match title {
        Some(x) => x,
        None => {
            let v = chars_of(path);
            match stem_of(v.as_slice()) {
                Some(s) => s,
                None => String::from_str("Unknown"),
            }
        },
    };
    let mut artists: Vec<String> = Vec::new();
    if let Some(a) = artist {
        artists.push(a);
    }
    assert(strings_view(artists@) =~= (match tag {
        Some(g) => match g.artist {
            Some(a) => seq![a@],
            None => Seq::empty(),
        },
        None => Seq::empty(),
    }));
    let album = match album {
        Some(a) => a,
        None => String::new(),
    };
    Track { uri: path_to_uri(path), name, artists, album, length: length_ms, track_no }
}

/// `s` with every trailing copy of `pat` removed (`str::trim_end_matches`).
pub open spec fn strip_suffixes(s: Seq<char>, pat: Seq<char>) -> Seq<char>
    decreases s.len(),
{
    if pat.len() > 0 && has_suffix(s, pat) {
        strip_suffixes(s.subrange(0, s.len() - pat.len()), pat)
    } else {
        s
    }
}

/// The number part of a ReplayGain value: trimmed, without trailing `" dB"` and
/// `"dB"` units, trimmed again.
pub open spec fn replay_gain_number(val: Seq<char>) -> Seq<char> {
    trim(strip_suffixes(strip_suffixes(trim(val), " dB"@), "dB"@))
}

/// The length of `v[..end]` without trailing copies of `pat`.
fn strip_suffixes_end(v: &[char], end: usize, pat: &[char]) -> (r: usize)
    requires
        end <= v@.len(),
    ensures
        r <= end,
        v@.subrange(0, r as int) == strip_suffixes(v@.subrange(0, end as int), pat@),
    decreases end,
{
    if pat.len() == 0 || pat.len() > end {
        return end;
    }
    let start = end - pat.len();
    let mut k: usize = 0;
    while k < pat.len()
        invariant
            k <= pat@.len(),
            start + pat@.len() == end <= v@.len(),
            forall|m: int| 0 <= m < k ==> v@[start + m] == pat@[m],
        decreases pat@.len() - k,
    {
        if v[start + k] != pat[k] {
            assert(v@.subrange(0, end as int).subrange(start as int, end as int)[k as int] != pat@[k as int]);
            return end;
        }
        k = k + 1;
    }
    assert(v@.subrange(0, end as int).subrange(start as int, end as int) =~= pat@);
    assert(v@.subrange(0, end as int).subrange(0, start as int) =~= v@.subrange(0, start as int));
    strip_suffixes_end(v, start, pat)
}

/// The number part of a ReplayGain tag value (see [`replay_gain_number`]); reading
/// it as a number is left to the caller.
pub fn replay_gain_text(val: &str) -> (r: String)
    ensures
        r@ == replay_gain_number(val@),
{
    let v = chars_of(val);
    let (lo, hi) = trim_bounds(v.as_slice());
    let t = chars_of(string_from_range(v.as_slice(), lo, hi).as_str());
    let p1 = chars_of(" dB");
    let p2 = chars_of("dB");
    let e1 = strip_suffixes_end(t.as_slice(), t.len(), p1.as_slice());
    let e2 = strip_suffixes_end(t.as_slice(), e1, p2.as_slice());
    assert(t@.subrange(0, t@.len() as int) =~= t@);
    let u = chars_of(string_from_range(t.as_slice(), 0, e2).as_str());
    let (lo2, hi2) = trim_bounds(u.as_slice());
    string_from_range(u.as_slice(), lo2, hi2)
}

} // verus!
