//! Unix path handling on character sequences: file names, extensions, stems,
//! joining, and the `file://` URI scheme.
use vstd::prelude::*;
use crate::text::{
    chars_eq_ignore_ascii_case, chars_have_prefix, chars_of, eq_ignore_ascii_case, has_prefix, owned,
    push_char, string_from_range,
};

verus! {

/// The characters of `"file://"`.
pub open spec fn scheme() -> Seq<char> {
    seq!['f', 'i', 'l', 'e', ':', '/', '/']
}

/// Characters after the last `/` (the whole sequence when there is none).
pub open spec fn last_segment(p: Seq<char>) -> Seq<char>
    decreases p.len(),
{
    if p.len() == 0 {
        p
    } else if p.last() == '/' {
        Seq::empty()
    } else {
        last_segment(p.drop_last()).push(p.last())
    }
}

/// The file name of a path, as `Path::file_name` gives it: the last component,
/// skipping empty and `.` components; `None` when that component is `..` or when
/// there is none.
pub open spec fn file_name(p: Seq<char>) -> Option<Seq<char>>
    decreases p.len(),
{
    if p.len() == 0 {
        None
    } else if p.last() == '/' {
        file_name(p.drop_last())
    } else {
        let seg = last_segment(p);
        if seg == seq!['.'] {
            file_name(p.subrange(0, p.len() - 1))
        } else if seg == seq!['.', '.'] {
            None
        } else {
            Some(seg)
        }
    }
}

/// Position of the last `.` in `s`, if any.
pub open spec fn last_dot(s: Seq<char>) -> Option<int>
    decreases s.len(),
{
    if s.len() == 0 {
        None
    } else if s.last() == '.' {
        Some(s.len() - 1)
    } else {
        last_dot(s.drop_last())
    }
}

/// Extension of a file name (`Path::extension` on that name): the text after the
/// last `.`, unless the name is `..`, has no `.`, or its only `.` comes first.
pub open spec fn name_extension(name: Seq<char>) -> Option<Seq<char>> {
    if name == seq!['.', '.'] {
        None
    } else {
        match last_dot(name) {
            None => None,
            Some(i) => if i == 0 {
                None
            } else {
                Some(name.subrange(i + 1, name.len() as int))
            },
        }
    }
}

/// Stem of a file name (`Path::file_stem` on that name).
pub open spec fn name_stem(name: Seq<char>) -> Seq<char> {
    if name == seq!['.', '.'] {
        name
    } else {
        match last_dot(name) {
            None => name,
            Some(i) => if i == 0 {
                name
            } else {
                name.subrange(0, i)
            },
        }
    }
}

/// `Path::extension`.
pub open spec fn path_extension(p: Seq<char>) -> Option<Seq<char>> {
    match file_name(p) {
        None => None,
        Some(n) => name_extension(n),
    }
}

/// `Path::file_stem`.
pub open spec fn path_stem(p: Seq<char>) -> Option<Seq<char>> {
    match file_name(p) {
        None => None,
        Some(n) => Some(name_stem(n)),
    }
}

/// `Path::join` for a relative second part.
pub open spec fn join(base: Seq<char>, rel: Seq<char>) -> Seq<char> {
    if base.len() == 0 || base.last() == '/' {
        base + rel
    } else {
        base + seq!['/'] + rel
    }
}

/// The supported audio extensions, compared without regard to ASCII case.
pub open spec fn is_audio_ext(e: Seq<char>) -> bool {
    ||| eq_ignore_ascii_case(e, seq!['m', 'p', '3'])
    ||| eq_ignore_ascii_case(e, seq!['f', 'l', 'a', 'c'])
    ||| eq_ignore_ascii_case(e, seq!['o', 'g', 'g'])
    ||| eq_ignore_ascii_case(e, seq!['w', 'a', 'v'])
}

/// The path names an audio file by its extension.
pub open spec fn is_audio_path(p: Seq<char>) -> bool {
    path_extension(p) matches Some(e) && is_audio_ext(e)
}

/// `file://` URI of a path.
pub open spec fn uri_of(p: Seq<char>) -> Seq<char> {
    scheme() + p
}

/// Path named by a URI: the URI without its `file://` prefix, or the URI itself.
pub open spec fn path_of(uri: Seq<char>) -> Seq<char> {
    if has_prefix(uri, scheme()) {
        uri.subrange(7, uri.len() as int)
    } else {
        uri
    }
}

/// A path turned into a URI turns back into the same path.
pub proof fn lemma_uri_path_roundtrip(p: Seq<char>)
    ensures
        path_of(uri_of(p)) == p,
{
    let u = uri_of(p);
    assert(u.subrange(0, 7) =~= scheme());
    assert(u.subrange(7, u.len() as int) =~= p);
}

fn scheme_chars() -> (v: Vec<char>)
    ensures
        v@ == scheme(),
{
    let v = vec!['f', 'i', 'l', 'e', ':', '/', '/'];
    assert(v@ =~= scheme());
    v
}

/// Converts a `file://` URI to a filesystem path; other strings are returned as they are.
pub fn uri_to_path(uri: &str) -> (p: String)
    ensures
        p@ == path_of(uri@),
{
    let v = chars_of(uri);
    let s = scheme_chars();
    if chars_have_prefix(v.as_slice(), s.as_slice()) {
        string_from_range(v.as_slice(), 7, v.len())
    } else {
        owned(uri)
    }
}

/// Converts a filesystem path to a `file://` URI.
pub fn path_to_uri(path: &str) -> (uri: String)
    ensures
        uri@ == uri_of(path@),
{
    let mut u = String::new();
    u.append("file://");
    proof {
        reveal_strlit("file://");
    }
    assert(u@ =~= scheme());
    u.append(path);
    u
}

/// Characters after the last `/` of `v[..end]`: the start index of that segment.
fn last_segment_start(v: &[char], end: usize) -> (i: usize)
    requires
        end <= v@.len(),
    ensures
        i <= end,
        v@.subrange(i as int, end as int) == last_segment(v@.subrange(0, end as int)),
        i > 0 ==> v@[i - 1] == '/',
{
    let mut i = end;
    while i > 0 && v[i - 1] != '/'
        invariant
            i <= end <= v@.len(),
            last_segment(v@.subrange(0, end as int)) == last_segment(v@.subrange(0, i as int))
                + v@.subrange(i as int, end as int),
        decreases i,
    {
        let ghost pre = v@.subrange(0, i as int);
        assert(pre.drop_last() =~= v@.subrange(0, i - 1));
        assert(last_segment(pre) == last_segment(pre.drop_last()).push(pre.last()));
        assert(v@.subrange(i - 1, end as int) =~= seq![v@[i - 1]] + v@.subrange(i as int, end as int));
        assert(last_segment(v@.subrange(0, i - 1)).push(v@[i - 1]) + v@.subrange(i as int, end as int)
            =~= last_segment(v@.subrange(0, i - 1)) + v@.subrange(i - 1, end as int));
        i = i - 1;
    }
    let ghost pre = v@.subrange(0, i as int);
    if i > 0 {
        assert(pre.last() == '/');
    }
    assert(last_segment(pre) =~= Seq::<char>::empty());
    assert(Seq::<char>::empty() + v@.subrange(i as int, end as int) =~= v@.subrange(i as int, end as int));
    i
}

/// Bounds of the file name of `v[..end]`, or `None` (see [`file_name`]).
fn file_name_bounds(v: &[char], end: usize) -> (r: Option<(usize, usize)>)
    requires
        end <= v@.len(),
    ensures
        match r {
            None => file_name(v@.subrange(0, end as int)) is None,
            Some((lo, hi)) => lo <= hi <= end && file_name(v@.subrange(0, end as int)) == Some(
                v@.subrange(lo as int, hi as int),
            ),
        },
    decreases end,
{
    if end == 0 {
        return None;
    }
    let ghost p = v@.subrange(0, end as int);
    if v[end - 1] == '/' {
        assert(p.drop_last() =~= v@.subrange(0, end - 1));
        return file_name_bounds(v, end - 1);
    }
    let lo = last_segment_start(v, end);
    let len = end - lo;
    if len == 1 && v[lo] == '.' {
        assert(v@.subrange(lo as int, end as int) =~= seq!['.']);
        assert(p.subrange(0, p.len() - 1) =~= v@.subrange(0, end - 1));
        return file_name_bounds(v, end - 1);
    }
    if len == 2 && v[lo] == '.' && v[lo + 1] == '.' {
        assert(v@.subrange(lo as int, end as int) =~= seq!['.', '.']);
        return None;
    }
    proof {
        if v@.subrange(lo as int, end as int) == seq!['.'] {
            assert(v@.subrange(lo as int, end as int).len() == 1);
            assert(v@.subrange(lo as int, end as int)[0] == v@[lo as int]);
        }
        if v@.subrange(lo as int, end as int) == seq!['.', '.'] {
            assert(v@.subrange(lo as int, end as int).len() == 2);
            assert(v@.subrange(lo as int, end as int)[0] == v@[lo as int]);
            assert(v@.subrange(lo as int, end as int)[1] == v@[lo + 1]);
        }
    }
    Some((lo, end))
}

/// Position of the last `.` in `v[lo..hi]`, relative to `lo`.
fn last_dot_in(v: &[char], lo: usize, hi: usize) -> (r: Option<usize>)
    requires
        lo <= hi <= v@.len(),
    ensures
        match r {
            None => last_dot(v@.subrange(lo as int, hi as int)) is None,
            Some(i) => lo + i < hi && last_dot(v@.subrange(lo as int, hi as int)) == Some(i as int),
        },
{
    let mut j = hi;
    while j > lo && v[j - 1] != '.'
        invariant
            lo <= j <= hi <= v@.len(),
            last_dot(v@.subrange(lo as int, hi as int)) == last_dot(v@.subrange(lo as int, j as int)),
        decreases j,
    {
        let ghost s = v@.subrange(lo as int, j as int);
        assert(s.drop_last() =~= v@.subrange(lo as int, j - 1));
        j = j - 1;
    }
    if j == lo {
        assert(v@.subrange(lo as int, j as int) =~= Seq::<char>::empty());
        None
    } else {
        Some(j - 1 - lo)
    }
}

/// Bounds of the extension of the file name `v[lo..hi]`, if it has one.
fn name_extension_bounds(v: &[char], lo: usize, hi: usize) -> (r: Option<(usize, usize)>)
    requires
        lo <= hi <= v@.len(),
    ensures
        match r {
            None => name_extension(v@.subrange(lo as int, hi as int)) is None,
            Some((a, b)) => lo <= a <= b && b == hi && name_extension(
                v@.subrange(lo as int, hi as int),
            ) == Some(v@.subrange(a as int, b as int)),
        },
{
    let ghost n = v@.subrange(lo as int, hi as int);
    if hi - lo == 2 && v[lo] == '.' && v[lo + 1] == '.' {
        assert(n =~= seq!['.', '.']);
        return None;
    }
    proof {
        if n == seq!['.', '.'] {
            assert(n[0] == v@[lo as int] && n[1] == v@[lo + 1]);
        }
    }
    match last_dot_in(v, lo, hi) {
        None => None,
        Some(i) => {
            if i == 0 {
                None
            } else {
                assert(n.subrange(i + 1, n.len() as int) =~= v@.subrange(lo + i + 1, hi as int));
                Some((lo + i + 1, hi))
            }
        },
    }
}

/// Bounds of the stem of the file name `v[lo..hi]`.
fn name_stem_bounds(v: &[char], lo: usize, hi: usize) -> (r: (usize, usize))
    requires
        lo <= hi <= v@.len(),
    ensures
        r.0 == lo && lo <= r.1 <= hi,
        name_stem(v@.subrange(lo as int, hi as int)) == v@.subrange(r.0 as int, r.1 as int),
{
    let ghost n = v@.subrange(lo as int, hi as int);
    if hi - lo == 2 && v[lo] == '.' && v[lo + 1] == '.' {
        assert(n =~= seq!['.', '.']);
        return (lo, hi);
    }
    proof {
        if n == seq!['.', '.'] {
            assert(n[0] == v@[lo as int] && n[1] == v@[lo + 1]);
        }
    }
    match last_dot_in(v, lo, hi) {
        None => (lo, hi),
        Some(i) => {
            if i == 0 {
                (lo, hi)
            } else {
                assert(n.subrange(0, i as int) =~= v@.subrange(lo as int, lo + i));
                (lo, lo + i)
            }
        },
    }
}

/// Extension of a path given by its characters.
pub fn extension_of(v: &[char]) -> (r: Option<String>)
    ensures
        match r {
            None => path_extension(v@) is None,
            Some(e) => path_extension(v@) == Some(e@),
        },
{
    assert(v@.subrange(0, v@.len() as int) =~= v@);
    match file_name_bounds(v, v.len()) {
        None => None,
        Some((lo, hi)) => match name_extension_bounds(v, lo, hi) {
            None => None,
            Some((a, b)) => Some(string_from_range(v, a, b)),
        },
    }
}

/// File stem of a path given by its characters.
pub fn stem_of(v: &[char]) -> (r: Option<String>)
    ensures
        match r {
            None => path_stem(v@) is None,
            Some(e) => path_stem(v@) == Some(e@),
        },
{
    assert(v@.subrange(0, v@.len() as int) =~= v@);
    match file_name_bounds(v, v.len()) {
        None => None,
        Some((lo, hi)) => {
            let (a, b) = name_stem_bounds(v, lo, hi);
            Some(string_from_range(v, a, b))
        },
    }
}

/// One of the supported audio extensions, ignoring ASCII case.
pub fn is_audio_extension(e: &str) -> (b: bool)
    ensures
        b == is_audio_ext(e@),
{
    let v = chars_of(e);
    let mp3 = vec!['m', 'p', '3'];
    let flac = vec!['f', 'l', 'a', 'c'];
    let ogg = vec!['o', 'g', 'g'];
    let wav = vec!['w', 'a', 'v'];
    assert(mp3@ =~= seq!['m', 'p', '3']);
    assert(flac@ =~= seq!['f', 'l', 'a', 'c']);
    assert(ogg@ =~= seq!['o', 'g', 'g']);
    assert(wav@ =~= seq!['w', 'a', 'v']);
    chars_eq_ignore_ascii_case(v.as_slice(), mp3.as_slice()) || chars_eq_ignore_ascii_case(
        v.as_slice(),
        flac.as_slice(),
    ) || chars_eq_ignore_ascii_case(v.as_slice(), ogg.as_slice()) || chars_eq_ignore_ascii_case(
        v.as_slice(),
        wav.as_slice(),
    )
}

/// The path names an audio file.
pub fn path_is_audio(p: &str) -> (b: bool)
    ensures
        b == is_audio_path(p@),
{
    let v = chars_of(p);
    match extension_of(v.as_slice()) {
        None => false,
        Some(e) => is_audio_extension(e.as_str()),
    }
}

/// `Path::join` of a relative part onto a base directory.
pub fn join_path(base: &str, rel: &str) -> (r: String)
    ensures
        r@ == join(base@, rel@),
{
    let bv = chars_of(base);
    let mut r = owned(base);
    if bv.len() == 0 || bv[bv.len() - 1] == '/' {
        r.append(rel);
        r
    } else {
        push_char(&mut r, '/');
        r.append(rel);
        r
    }
}

} // verus!
