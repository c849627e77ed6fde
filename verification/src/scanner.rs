//! Which files of a music directory are tracks, and the sorted URIs of a scan or of
//! a directory listing.
use vstd::prelude::*;
use crate::paths::{is_audio_path, path_is_audio, path_to_uri, uri_of};
use crate::sorting::{
    lemma_sort_insert_at, lemma_stable_sort_multiset, lemma_stable_sort_ordered, ordered_by,
    stable_sort, strict_weak_order,
};
use crate::text::{
    chars_lt, chars_of, lemma_seq_lt_asym, lemma_seq_lt_irrefl, lemma_seq_lt_total,
    lemma_seq_lt_trans, seq_lt,
};
use crate::types::strings_view;

verus! {

/// URI order: `a` comes after `b` when `b` is lexicographically smaller.
pub open spec fn uri_gt() -> spec_fn(Seq<char>, Seq<char>) -> bool {
    |a: Seq<char>, b: Seq<char>| seq_lt(b, a)
}

/// `uri_gt` is a strict weak order.
pub proof fn lemma_uri_gt_order()
    ensures
        strict_weak_order(uri_gt()),
{
    let gt = uri_gt();
    assert forall|a: Seq<char>| !#[trigger] gt(a, a) by {
        lemma_seq_lt_irrefl(a);
    }
    assert forall|a: Seq<char>, b: Seq<char>, c: Seq<char>| #[trigger] gt(a, b) && #[trigger] gt(
        b,
        c,
    ) implies gt(a, c) by {
        lemma_seq_lt_trans(c, b, a);
    }
    assert forall|a: Seq<char>, b: Seq<char>, c: Seq<char>| !#[trigger] gt(a, b) && !#[trigger] gt(
        b,
        c,
    ) implies !gt(a, c) by {
        lemma_seq_lt_total(a, b);
        lemma_seq_lt_total(b, c);
        if gt(a, c) {
            if seq_lt(a, b) {
                lemma_seq_lt_trans(c, a, b);
                lemma_seq_lt_asym(c, b);
            } else {
                lemma_seq_lt_asym(c, a);
            }
        }
    }
}

/// Sorts URIs into ascending order (a stable insertion sort).
pub fn sort_uris(v: Vec<String>) -> (r: Vec<String>)
    ensures
        strings_view(r@) == stable_sort(strings_view(v@), uri_gt()),
{
    let mut out: Vec<String> = Vec::new();
    let mut keys: Vec<Vec<char>> = Vec::new();
    let ghost src = strings_view(v@);
    let mut i: usize = 0;
    while i < v.len()
        invariant
            i <= v@.len(),
            src == strings_view(v@),
            strings_view(out@) == stable_sort(src.subrange(0, i as int), uri_gt()),
            keys@.len() == out@.len(),
            forall|k: int| 0 <= k < keys@.len() ==> (#[trigger] keys@[k])@ == out@[k]@,
        decreases v@.len() - i,
    {
        let x = v[i].clone();
        let key = chars_of(x.as_str());
        let ghost cur = strings_view(out@);
        let mut j: usize = out.len();
        while j > 0 && chars_lt(key.as_slice(), keys[j - 1].as_slice())
            invariant
                j <= out@.len(),
                keys@.len() == out@.len(),
                forall|k: int| 0 <= k < keys@.len() ==> (#[trigger] keys@[k])@ == out@[k]@,
                cur == strings_view(out@),
                key@ == x@,
                forall|k: int| j <= k < cur.len() ==> (uri_gt())(#[trigger] cur[k], x@),
            decreases j,
        {
            j = j - 1;
        }
        proof {
            if j > 0 {
                assert(keys@[j - 1]@ == cur[j - 1]);
            }
            lemma_sort_insert_at(cur, x@, uri_gt(), j as int);
            assert(src.subrange(0, i + 1).drop_last() =~= src.subrange(0, i as int));
            assert(src[i as int] == x@);
        }
        out.insert(j, x);
        keys.insert(j, key);
        assert(strings_view(out@) =~= cur.insert(j as int, x@));
        i = i + 1;
    }
    assert(src.subrange(0, src.len() as int) =~= src);
    out
}

/// The URIs of the audio files among `paths`, in input order.
pub open spec fn audio_uri_list(paths: Seq<Seq<char>>) -> Seq<Seq<char>>
    decreases paths.len(),
{
    if paths.len() == 0 {
        Seq::empty()
    } else {
        let prev = audio_uri_list(paths.drop_last());
        if is_audio_path(paths.last()) {
            prev.push(uri_of(paths.last()))
        } else {
            prev
        }
    }
}

/// The sorted `file://` URIs of the files among `paths` that have a supported audio
/// extension (compared without regard to ASCII case).
pub fn audio_uris(paths: &Vec<String>) -> (uris: Vec<String>)
    ensures
        strings_view(uris@) == stable_sort(audio_uri_list(strings_view(paths@)), uri_gt()),
        ordered_by(strings_view(uris@), uri_gt()),
        strings_view(uris@).to_multiset() == audio_uri_list(strings_view(paths@)).to_multiset(),
{
    let ghost all = strings_view(paths@);
    let mut found: Vec<String> = Vec::new();
    let mut i: usize = 0;
    while i < paths.len()
        invariant
            i <= paths@.len(),
            all == strings_view(paths@),
            strings_view(found@) == audio_uri_list(all.subrange(0, i as int)),
        decreases paths@.len() - i,
    {
        let ghost pre = all.subrange(0, i as int + 1);
        assert(pre.drop_last() =~= all.subrange(0, i as int));
        assert(pre.last() == paths@[i as int]@);
        let ghost before = strings_view(found@);
        if path_is_audio(paths[i].as_str()) {
            found.push(path_to_uri(paths[i].as_str()));
            assert(strings_view(found@) =~= before.push(found@.last()@));
        }
        i = i + 1;
    }
    assert(all.subrange(0, all.len() as int) =~= all);
    let ghost list = strings_view(found@);
    let r = sort_uris(found);
    proof {
        lemma_uri_gt_order();
        lemma_stable_sort_ordered(list, uri_gt());
        lemma_stable_sort_multiset(list, uri_gt());
    }
    r
}

/// The URIs a directory listing shows: directories, and files with a supported
/// audio extension, in input order.
pub open spec fn listing_uri_list(entries: Seq<(Seq<char>, bool)>) -> Seq<Seq<char>>
    decreases entries.len(),
{
    if entries.len() == 0 {
        Seq::empty()
    } else {
        let prev = listing_uri_list(entries.drop_last());
        let (p, is_dir) = entries.last();
        if is_dir || is_audio_path(p) {
            prev.push(uri_of(p))
        } else {
            prev
        }
    }
}

/// The models of directory entries: each path with whether it is a directory.
pub open spec fn entries_view(v: Seq<(String, bool)>) -> Seq<(Seq<char>, bool)> {
    v.map_values(|e: (String, bool)| (e.0@, e.1))
}

/// The sorted URIs of a directory listing: subdirectories and audio files.
pub fn listing_uris(entries: &Vec<(String, bool)>) -> (uris: Vec<String>)
    ensures
        strings_view(uris@) == stable_sort(listing_uri_list(entries_view(entries@)), uri_gt()),
        ordered_by(strings_view(uris@), uri_gt()),
{
    let ghost all = entries_view(entries@);
    let mut found: Vec<String> = Vec::new();
    let mut i: usize = 0;
    while i < entries.len()
        invariant
            i <= entries@.len(),
            all == entries_view(entries@),
            strings_view(found@) == listing_uri_list(all.subrange(0, i as int)),
        decreases entries@.len() - i,
    {
        let ghost pre = all.subrange(0, i as int + 1);
        assert(pre.drop_last() =~= all.subrange(0, i as int));
        assert(pre.last() == (entries@[i as int].0@, entries@[i as int].1));
        let ghost before = strings_view(found@);
        let (path, is_dir) = &entries[i];
        if *is_dir || path_is_audio(path.as_str()) {
            found.push(path_to_uri(path.as_str()));
            assert(strings_view(found@) =~= before.push(found@.last()@));
        }
        i = i + 1;
    }
    assert(all.subrange(0, all.len() as int) =~= all);
    let ghost list = strings_view(found@);
    let r = sort_uris(found);
    proof {
        lemma_uri_gt_order();
        lemma_stable_sort_ordered(list, uri_gt());
    }
    r
}

} // verus!
