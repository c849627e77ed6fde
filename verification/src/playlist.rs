//! M3U playlists: which entries of a playlist file name playable tracks, and what a
//! playlist file is called and holds.
use vstd::prelude::*;
use crate::error::RustifyError;
use crate::paths::{
    is_audio_path, join, join_path, path_extension, path_is_audio, path_of, path_stem, path_to_uri,
    scheme, stem_of, extension_of, uri_of,
};
use crate::text::{
    chars_of, has_prefix, is_ws, lemma_split_lines_nonempty, lines_of, owned, split_lines, str_eq,
    string_from_range, trim, trim_bounds, trim_end, trim_start,
};
use crate::tui::m3u_text;
use crate::types::{strings_view, Playlist};

verus! {

/// The URI that one line of a playlist contributes, if any: comment lines (`#...`)
/// and blank lines contribute nothing; other lines name a path, absolute or relative
/// to `base`, which counts when it has an audio extension.
pub open spec fn m3u_entry(line: Seq<char>, base: Seq<char>) -> Option<Seq<char>> {
    let t = trim(line);
    if t.len() == 0 || t[0] == '#' {
        None
    } else {
        let p = if t[0] == '/' {
            t
        } else {
            join(base, t)
        };
        if is_audio_path(p) {
            Some(uri_of(p))
        } else {
            None
        }
    }
}

/// The URIs that a list of playlist lines contributes, in order.
pub open spec fn m3u_collect(lines: Seq<Seq<char>>, base: Seq<char>) -> Seq<Seq<char>>
    decreases lines.len(),
{
    if lines.len() == 0 {
        Seq::empty()
    } else {
        let prev = m3u_collect(lines.drop_last(), base);
        match m3u_entry(lines.last(), base) {
            Some(u) => prev.push(u),
            None => prev,
        }
    }
}

/// The URIs that a playlist text lists, with relative paths resolved against `base`.
pub open spec fn m3u_uris(content: Seq<char>, base: Seq<char>) -> Seq<Seq<char>> {
    m3u_collect(split_lines(content), base)
}

/// The parent directory of a path, as `Path::parent` gives it.
pub uninterp spec fn path_parent(p: Seq<char>) -> Option<Seq<char>>;

/// Calls `Path::parent`. The contract names its result `path_parent(path@)`: it
/// depends on the path text alone; what it is (the path without its last
/// component, or `None` for a root or an empty path) is not stated here.
#[verifier::external_body]
fn parent_of(path: &str) -> (r: Option<String>)
    ensures
        r is Some <==> path_parent(path@) is Some,
        r matches Some(s) ==> path_parent(path@) == Some(s@),
{
    match std::path::Path::new(path).parent() {
        Some(p) => Some(p.to_string_lossy().into_owned()),
        None => None,
    }
}

/// The URI one playlist line contributes, if any.
fn entry_uri(line: &str, base: &str) -> (r: Option<String>)
    ensures
        r is Some <==> m3u_entry(line@, base@) is Some,
        r matches Some(u) ==> m3u_entry(line@, base@) == Some(u@),
{
    let v = chars_of(line);
    let (lo, hi) = trim_bounds(v.as_slice());
    if lo == hi || v[lo] == '#' {
        return None;
    }
    let t = string_from_range(v.as_slice(), lo, hi);
    assert(t@[0] == v@[lo as int]);
    let p = if v[lo] == '/' {
        t
    } else {
        join_path(base, t.as_str())
    };
    if path_is_audio(p.as_str()) {
        Some(path_to_uri(p.as_str()))
    } else {
        None
    }
}

/// The URIs that a playlist text lists (simple or extended M3U), with relative paths
/// resolved against `base_dir`; only entries with supported audio extensions count.
pub fn parse_m3u_content(content: &str, base_dir: &str) -> (uris: Vec<String>)
    ensures
        strings_view(uris@) == m3u_uris(content@, base_dir@),
{
    let lines = lines_of(content);
    let ghost all = lines@.map_values(|x: String| x@);
    let mut uris: Vec<String> = Vec::new();
    let mut i: usize = 0;
    while i < lines.len()
        invariant
            i <= lines@.len(),
            all == lines@.map_values(|x: String| x@),
            strings_view(uris@) == m3u_collect(all.subrange(0, i as int), base_dir@),
        decreases lines@.len() - i,
    {
        let ghost pre = all.subrange(0, i as int + 1);
        assert(pre.drop_last() =~= all.subrange(0, i as int));
        assert(pre.last() == lines@[i as int]@);
        let ghost before = strings_view(uris@);
        match entry_uri(lines[i].as_str(), base_dir) {
            Some(u) => {
                uris.push(u);
                assert(strings_view(uris@) =~= before.push(uris@.last()@));
            },
            None => {},
        }
        i = i + 1;
    }
    assert(all.subrange(0, all.len() as int) =~= all);
    uris
}

/// Parses the text of the M3U file at `path`: relative entries resolve against the
/// file's directory. Fails when the path has no parent directory.
pub fn parse_m3u(path: &str, content: &str) -> (r: Result<Vec<String>, RustifyError>)
    ensures
        path_parent(path@) is None ==> (r matches Err(RustifyError::Playlist(m)) && m@
            == "M3U path has no parent directory"@),
        path_parent(path@) matches Some(b) ==> (r matches Ok(u) && strings_view(u@) == m3u_uris(
            content@,
            b,
        )),
{
    match parent_of(path) {
        None => Err(RustifyError::Playlist(String::from_str("M3U path has no parent directory"))),
        Some(base) => Ok(parse_m3u_content(content, base.as_str())),
    }
}

/// A playlist file is a path with the `m3u` extension (exactly, in lower case).
pub fn is_playlist_path(path: &str) -> (b: bool)
    ensures
        b == (path_extension(path@) == Some("m3u"@)),
{
    let v = chars_of(path);
    match extension_of(v.as_slice()) {
        Some(e) => str_eq(e.as_str(), "m3u"),
        None => false,
    }
}

/// Name of a playlist: the file's stem, or "unknown" when it has none.
pub open spec fn playlist_name(path: Seq<char>) -> Seq<char> {
    match path_stem(path) {
        Some(s) => s,
        None => "unknown"@,
    }
}

/// Number of tracks a playlist file lists: zero when it could not be read or parsed.
pub open spec fn playlist_count(path: Seq<char>, content: Option<Seq<char>>) -> int {
    match (content, path_parent(path)) {
        (Some(c), Some(b)) => m3u_uris(c, b).len() as int,
        _ => 0,
    }
}

/// Describes the playlist file at `path` whose text is `content` (`None` when it
/// could not be read).
pub fn playlist_info(path: &str, content: Option<&str>) -> (p: Playlist)
    ensures
        p.uri@ == uri_of(path@),
        p.name@ == playlist_name(path@),
        p.track_count == playlist_count(path@, match content {
            Some(c) => Some(c@),
            None => None,
        }),
{
    let v = chars_of(path);
    let name = match stem_of(v.as_slice()) {
        Some(s) => s,
        None => String::from_str("unknown"),
    };
    let track_count = match content {
        Some(c) => match parse_m3u(path, c) {
            Ok(uris) => {
                assert(uris@.len() == strings_view(uris@).len());
                uris.len()
            },
            Err(_) => 0,
        },
        None => 0,
    };
    Playlist { uri: path_to_uri(path), name, track_count }
}

/// A URI that a saved playlist lists so that reading the playlist gives it back:
/// a `file://` URI of an absolute path with an audio extension, on one line,
/// without trailing whitespace.
pub open spec fn reloads(u: Seq<char>) -> bool {
    let p = path_of(u);
    &&& has_prefix(u, scheme())
    &&& p.len() > 0
    &&& p[0] == '/'
    &&& !p.contains('\n')
    &&& !is_ws(p.last())
    &&& is_audio_path(p)
}

/// Appending text without a newline extends the last line.
proof fn lemma_split_append_line(s: Seq<char>, x: Seq<char>)
    requires
        !x.contains('\n'),
    ensures
        split_lines(s + x) == split_lines(s).update(
            split_lines(s).len() - 1,
            split_lines(s).last() + x,
        ),
        split_lines(s + x).len() == split_lines(s).len(),
    decreases x.len(),
{
    lemma_split_lines_nonempty(s);
    if x.len() == 0 {
        assert(s + x =~= s);
        assert(split_lines(s).last() + x =~= split_lines(s).last());
        assert(split_lines(s).update(split_lines(s).len() - 1, split_lines(s).last()) =~= split_lines(
            s,
        ));
    } else {
        let y = x.drop_last();
        assert(!y.contains('\n')) by {
            if y.contains('\n') {
                let k = choose|k: int| 0 <= k < y.len() && y[k] == '\n';
                assert(x[k] == '\n');
            }
        }
        lemma_split_append_line(s, y);
        assert(x.last() != '\n') by {
            assert(x[x.len() - 1] == x.last());
        }
        assert((s + x).drop_last() =~= s + y);
        assert((s + x).last() == x.last());
        let q = split_lines(s);
        let pl = split_lines(s + y);
        assert((s + x).len() > 0);
        assert(split_lines(s + x) == pl.update(pl.len() - 1, pl.last().push(x.last())));
        assert(pl.last() == q.last() + y);
        assert((q.last() + y).push(x.last()) =~= q.last() + x);
        assert(split_lines(s + x) =~= q.update(q.len() - 1, q.last() + x));
    }
}

/// The lines of a saved playlist: the header, the path of each URI, and the empty
/// line after the last newline.
proof fn lemma_m3u_text_lines(uris: Seq<Seq<char>>)
    requires
        forall|i: int| 0 <= i < uris.len() ==> !path_of(#[trigger] uris[i]).contains('\n'),
    ensures
        split_lines(m3u_text(uris)) == seq!["#EXTM3U"@] + uris.map_values(|u: Seq<char>| path_of(u))
            + seq![Seq::<char>::empty()],
    decreases uris.len(),
{
    if uris.len() == 0 {
        reveal_strlit("#EXTM3U\n");
        reveal_strlit("#EXTM3U");
        let h = "#EXTM3U"@;
        assert("#EXTM3U\n"@ =~= h + seq!['\n']);
        lemma_split_append_line(Seq::empty(), h);
        assert(Seq::<char>::empty() + h =~= h);
        assert(!h.contains('\n')) by {
            if h.contains('\n') {
                let k = choose|k: int| 0 <= k < h.len() && h[k] == '\n';
            }
        }
        assert(split_lines(Seq::<char>::empty()) =~= seq![Seq::<char>::empty()]);
        assert(seq![Seq::<char>::empty()].last() + h =~= h);
        assert(split_lines(h) =~= seq![h]);
        assert((h + seq!['\n']).drop_last() =~= h);
        assert(split_lines(h + seq!['\n']) =~= seq![h, Seq::<char>::empty()]);
        assert(uris.map_values(|u: Seq<char>| path_of(u)) =~= Seq::<Seq<char>>::empty());
        assert(seq!["#EXTM3U"@] + uris.map_values(|u: Seq<char>| path_of(u)) + seq![
            Seq::<char>::empty(),
        ] =~= seq![h, Seq::<char>::empty()]);
    } else {
        let prev = uris.drop_last();
        assert forall|i: int| 0 <= i < prev.len() implies !path_of(#[trigger] prev[i]).contains(
            '\n',
        ) by {
            assert(prev[i] == uris[i]);
        }
        lemma_m3u_text_lines(prev);
        let t = m3u_text(prev);
        let p = path_of(uris.last());
        assert(!p.contains('\n')) by {
            assert(uris[uris.len() - 1] == uris.last());
        }
        lemma_split_append_line(t, p);
        let l0 = split_lines(t);
        let body = prev.map_values(|u: Seq<char>| path_of(u));
        assert(l0.len() == body.len() + 2);
        assert(l0.last() == Seq::<char>::empty());
        assert(Seq::<char>::empty() + p =~= p);
        let l1 = split_lines(t + p);
        assert(l1 =~= seq!["#EXTM3U"@] + body + seq![p]);
        assert((t + p + seq!['\n']).drop_last() =~= t + p);
        assert((t + p + seq!['\n']).last() == '\n');
        assert(m3u_text(uris) == t + p + seq!['\n']);
        assert(uris.map_values(|u: Seq<char>| path_of(u)) =~= body.push(p));
        assert(split_lines(m3u_text(uris)) =~= seq!["#EXTM3U"@] + uris.map_values(
            |u: Seq<char>| path_of(u),
        ) + seq![Seq::<char>::empty()]);
    }
}

/// Collecting from two runs of lines is collecting from each in turn.
proof fn lemma_collect_concat(a: Seq<Seq<char>>, b: Seq<Seq<char>>, base: Seq<char>)
    ensures
        m3u_collect(a + b, base) == m3u_collect(a, base) + m3u_collect(b, base),
    decreases b.len(),
{
    if b.len() == 0 {
        assert(a + b =~= a);
        assert(m3u_collect(a, base) + Seq::<Seq<char>>::empty() =~= m3u_collect(a, base));
    } else {
        lemma_collect_concat(a, b.drop_last(), base);
        assert((a + b).drop_last() =~= a + b.drop_last());
        assert((a + b).last() == b.last());
        match m3u_entry(b.last(), base) {
            Some(u) => {
                assert(m3u_collect(a, base) + m3u_collect(b.drop_last(), base).push(u) =~= (
                m3u_collect(a, base) + m3u_collect(b.drop_last(), base)).push(u));
            },
            None => {},
        }
    }
}

/// The paths of URIs that reload are collected back into the URIs.
proof fn lemma_collect_paths(uris: Seq<Seq<char>>, base: Seq<char>)
    requires
        forall|i: int| 0 <= i < uris.len() ==> reloads(#[trigger] uris[i]),
    ensures
        m3u_collect(uris.map_values(|u: Seq<char>| path_of(u)), base) == uris,
    decreases uris.len(),
{
    if uris.len() > 0 {
        let prev = uris.drop_last();
        assert forall|i: int| 0 <= i < prev.len() implies reloads(#[trigger] prev[i]) by {
            assert(prev[i] == uris[i]);
        }
        lemma_collect_paths(prev, base);
        let paths = uris.map_values(|u: Seq<char>| path_of(u));
        assert(paths.drop_last() =~= prev.map_values(|u: Seq<char>| path_of(u)));
        let u = uris.last();
        assert(reloads(u)) by {
            assert(uris[uris.len() - 1] == u);
        }
        let p = path_of(u);
        assert(paths.last() == p);
        assert(trim_start(p) == p);
        assert(trim_end(p) == p);
        assert(trim(p) == p);
        assert(u.subrange(0, 7) == scheme());
        assert(scheme() + p =~= u);
        assert(m3u_entry(p, base) == Some(u));
        assert(prev.push(u) =~= uris);
    }
}

/// Saving URIs as a playlist and reading the playlist back gives the same URIs, for
/// `file://` URIs of absolute audio paths on one line each, whatever directory the
/// playlist is read from.
pub proof fn lemma_m3u_roundtrip(uris: Seq<Seq<char>>, base: Seq<char>)
    requires
        forall|i: int| 0 <= i < uris.len() ==> reloads(#[trigger] uris[i]),
    ensures
        m3u_uris(m3u_text(uris), base) == uris,
{
    assert forall|i: int| 0 <= i < uris.len() implies !path_of(#[trigger] uris[i]).contains('\n') by {
        assert(reloads(uris[i]));
    }
    lemma_m3u_text_lines(uris);
    let paths = uris.map_values(|u: Seq<char>| path_of(u));
    let head = seq!["#EXTM3U"@];
    let tail = seq![Seq::<char>::empty()];
    lemma_collect_concat(head + paths, tail, base);
    lemma_collect_concat(head, paths, base);
    reveal_strlit("#EXTM3U");
    let h = "#EXTM3U"@;
    assert(head.drop_last() =~= Seq::<Seq<char>>::empty());
    assert(head.last() == h);
    assert(h[0] == '#' && h.len() == 7);
    assert(trim_start(h) == h);
    assert(!is_ws(h.last()));
    assert(trim_end(h) == h);
    assert(trim(h)[0] == '#');
    assert(m3u_entry(h, base) is None);
    assert(head.len() == 1);
    assert(m3u_collect(Seq::<Seq<char>>::empty(), base) =~= Seq::<Seq<char>>::empty());
    assert(m3u_collect(head, base) == m3u_collect(head.drop_last(), base));
    assert(m3u_collect(head, base) =~= Seq::<Seq<char>>::empty());
    assert(tail.drop_last() =~= Seq::<Seq<char>>::empty());
    assert(trim(Seq::<char>::empty()) =~= Seq::<char>::empty());
    assert(m3u_collect(tail, base) =~= Seq::<Seq<char>>::empty());
    lemma_collect_paths(uris, base);
    assert(Seq::<Seq<char>>::empty() + uris + Seq::<Seq<char>>::empty() =~= uris);
}

} // verus!
