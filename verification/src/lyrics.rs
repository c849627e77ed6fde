//! Lyrics: timestamped LRC lines or plain text, and the structure of an LRC line.
use vstd::prelude::*;
use crate::sorting::{
    lemma_sort_insert_at, lemma_stable_sort_multiset, lemma_stable_sort_ordered, ordered_by,
    stable_sort, strict_weak_order,
};
use crate::text::{chars_of, lines_of, owned, split_lines, string_from_range, trim, trim_bounds};

verus! {

/// Lyrics content.
#[derive(Debug, Clone)]
pub enum Lyrics {
    /// Timestamped lines of an `.lrc` file: (timestamp in ms, line text).
    Synced(Vec<(u64, String)>),
    /// Plain text lyrics from audio tags.
    Unsynced(String),
}

/// Model of [`Lyrics`].
pub enum LyricsView {
    Synced(Seq<(u64, Seq<char>)>),
    Unsynced(Seq<char>),
}

/// The models of timestamped lines.
pub open spec fn timed_view(v: Seq<(u64, String)>) -> Seq<(u64, Seq<char>)> {
    v.map_values(|e: (u64, String)| (e.0, e.1@))
}

impl View for Lyrics {
    type V = LyricsView;

    open spec fn view(&self) -> LyricsView {
        match self {
            Lyrics::Synced(v) => LyricsView::Synced(timed_view(v@)),
            Lyrics::Unsynced(s) => LyricsView::Unsynced(s@),
        }
    }
}

/// The parts of an LRC line `[mm:ss.xx]text`: the minutes, the seconds as written
/// (reading them as a number is left to the caller), and the text.
#[derive(Debug, Clone)]
pub struct LrcLine {
    pub minutes: u64,
    pub seconds: String,
    pub text: String,
}

/// Index of the first occurrence of `c` in `s`.
pub open spec fn first_index(s: Seq<char>, c: char) -> Option<int>
    decreases s.len(),
{
    if s.len() == 0 {
        None
    } else if s[0] == c {
        Some(0)
    } else {
        match first_index(s.drop_first(), c) {
            Some(i) => Some(i + 1),
            None => None,
        }
    }
}

/// Number of occurrences of `c` in `s`.
pub open spec fn count_of(s: Seq<char>, c: char) -> nat
    decreases s.len(),
{
    if s.len() == 0 {
        0
    } else {
        count_of(s.drop_last(), c) + (if s.last() == c {
            1nat
        } else {
            0nat
        })
    }
}

/// Every character is an ASCII digit.
pub open spec fn all_digits(d: Seq<char>) -> bool {
    forall|i: int| 0 <= i < d.len() ==> '0' <= #[trigger] d[i] && d[i] <= '9'
}

/// The number that decimal digits spell.
pub open spec fn digits_value(d: Seq<char>) -> int
    decreases d.len(),
{
    if d.len() == 0 {
        0
    } else {
        digits_value(d.drop_last()) * 10 + (d.last() as u32 - '0' as u32)
    }
}

/// `u64::from_str`: an optional `+`, then at least one decimal digit, with a value
/// that fits.
pub open spec fn parse_u64(s: Seq<char>) -> Option<u64> {
    let d = if s.len() > 0 && s[0] == '+' {
        s.drop_first()
    } else {
        s
    };
    if d.len() == 0 || !all_digits(d) || digits_value(d) > u64::MAX {
        None
    } else {
        Some(digits_value(d) as u64)
    }
}

/// The parts of an LRC line: `[`, a timestamp with exactly one `:` whose first part
/// is a whole number of minutes, `]`, then the text (see [`LrcLine`]).
pub open spec fn lrc_parts(line: Seq<char>) -> Option<(u64, Seq<char>, Seq<char>)> {
    match first_index(line, ']') {
        None => None,
        Some(close) => if line.len() == 0 || line[0] != '[' {
            None
        } else {
            let ts = line.subrange(1, close);
            let text = line.subrange(close + 1, line.len() as int);
            if count_of(ts, ':') != 1 {
                None
            } else {
                let k = first_index(ts, ':')->0;
                match parse_u64(ts.subrange(0, k)) {
                    None => None,
                    Some(m) => Some((m, ts.subrange(k + 1, ts.len() as int), text)),
                }
            }
        },
    }
}

/// The model of an optional LRC line.
pub open spec fn lrc_view(l: LrcLine) -> (u64, Seq<char>, Seq<char>) {
    (l.minutes, l.seconds@, l.text@)
}

/// The LRC lines of a text, in order: each line trimmed, blank lines skipped, lines
/// without the LRC structure skipped.
pub open spec fn lrc_collect(lines: Seq<Seq<char>>) -> Seq<(u64, Seq<char>, Seq<char>)>
    decreases lines.len(),
{
    if lines.len() == 0 {
        Seq::empty()
    } else {
        let prev = lrc_collect(lines.drop_last());
        let t = trim(lines.last());
        if t.len() == 0 {
            prev
        } else {
            match lrc_parts(t) {
                Some(p) => prev.push(p),
                None => prev,
            }
        }
    }
}

/// Timestamp order: `a` comes after `b` when its timestamp is larger.
pub open spec fn later() -> spec_fn((u64, Seq<char>), (u64, Seq<char>)) -> bool {
    |a: (u64, Seq<char>), b: (u64, Seq<char>)| a.0 > b.0
}

/// The lyrics of an LRC text whose timestamped lines were read as `timed`: plain
/// text when there are none, otherwise the lines ordered by timestamp (lines with
/// equal timestamps keep their order).
pub open spec fn lyrics_of(content: Seq<char>, timed: Seq<(u64, Seq<char>)>) -> LyricsView {
    if timed.len() == 0 {
        LyricsView::Unsynced(content)
    } else {
        LyricsView::Synced(stable_sort(timed, later()))
    }
}

/// Index of the first `c` in `v[lo..hi]`, relative to `lo`.
fn find_char(v: &[char], lo: usize, hi: usize, c: char) -> (r: Option<usize>)
    requires
        lo <= hi <= v@.len(),
    ensures
        match first_index(v@.subrange(lo as int, hi as int), c) {
            Some(i) => r == Some(i as usize),
            None => r is None,
        },
    decreases hi - lo,
{
    let ghost s = v@.subrange(lo as int, hi as int);
    if lo == hi {
        return None;
    }
    if v[lo] == c {
        return Some(0);
    }
    assert(s.drop_first() =~= v@.subrange(lo + 1, hi as int));
    match find_char(v, lo + 1, hi, c) {
        Some(i) => {
            proof {
                lemma_first_index_bound(v@.subrange(lo + 1, hi as int), c);
            }
            Some(i + 1)
        },
        None => None,
    }
}

proof fn lemma_first_index_bound(s: Seq<char>, c: char)
    ensures
        first_index(s, c) matches Some(i) ==> 0 <= i < s.len() && s[i] == c,
    decreases s.len(),
{
    if s.len() > 0 {
        lemma_first_index_bound(s.drop_first(), c);
    }
}

/// Number of `c` in `v[lo..hi]`, up to 2.
fn count_char_upto2(v: &[char], lo: usize, hi: usize, c: char) -> (n: usize)
    requires
        lo <= hi <= v@.len(),
    ensures
        n == (if count_of(v@.subrange(lo as int, hi as int), c) >= 2 {
            2
        } else {
            count_of(v@.subrange(lo as int, hi as int), c)
        }),
{
    let mut n: usize = 0;
    let mut i: usize = lo;
    while i < hi
        invariant
            lo <= i <= hi <= v@.len(),
            n <= 2,
            n == (if count_of(v@.subrange(lo as int, i as int), c) >= 2 {
                2
            } else {
                count_of(v@.subrange(lo as int, i as int), c)
            }),
        decreases hi - i,
    {
        assert(v@.subrange(lo as int, i + 1).drop_last() =~= v@.subrange(lo as int, i as int));
        if v[i] == c && n < 2 {
            n = n + 1;
        }
        i = i + 1;
    }
    n
}

/// A prefix of digits spells at most what the whole does.
proof fn lemma_digits_prefix(d: Seq<char>, i: int)
    requires
        0 <= i <= d.len(),
        all_digits(d),
    ensures
        digits_value(d.subrange(0, i)) <= digits_value(d),
    decreases d.len() - i,
{
    if i < d.len() {
        lemma_digits_prefix(d, i + 1);
        let p = d.subrange(0, i + 1);
        assert(all_digits(d.subrange(0, i))) by {
            assert forall|k: int| 0 <= k < i implies '0' <= #[trigger] d.subrange(0, i)[k]
                && d.subrange(0, i)[k] <= '9' by {
                assert(d.subrange(0, i)[k] == d[k]);
            }
        }
        lemma_digits_nonneg(d.subrange(0, i));
        assert(p.drop_last() =~= d.subrange(0, i));
        assert(p.last() == d[i]);
        assert(digits_value(p) >= digits_value(d.subrange(0, i))) by (nonlinear_arith)
            requires
                digits_value(p) == digits_value(d.subrange(0, i)) * 10 + (p.last() as u32
                    - '0' as u32),
                p.last() as u32 >= '0' as u32,
                digits_value(d.subrange(0, i)) >= 0,
        {
        }
    } else {
        assert(d.subrange(0, i) =~= d);
    }
}

proof fn lemma_digits_nonneg(d: Seq<char>)
    requires
        all_digits(d),
    ensures
        digits_value(d) >= 0,
    decreases d.len(),
{
    if d.len() > 0 {
        assert(all_digits(d.drop_last())) by {
            assert forall|i: int| 0 <= i < d.drop_last().len() implies '0' <= #[trigger] d.drop_last()[i]
                && d.drop_last()[i] <= '9' by {
                assert(d.drop_last()[i] == d[i]);
            }
        }
        lemma_digits_nonneg(d.drop_last());
        assert('0' <= d[d.len() - 1]);
    }
}

/// `u64::from_str` on `v[lo..hi]`.
fn parse_u64_range(v: &[char], lo: usize, hi: usize) -> (r: Option<u64>)
    requires
        lo <= hi <= v@.len(),
    ensures
        r == parse_u64(v@.subrange(lo as int, hi as int)),
{
    let ghost s = v@.subrange(lo as int, hi as int);
    let start = if lo < hi && v[lo] == '+' {
        lo + 1
    } else {
        lo
    };
    let ghost d = v@.subrange(start as int, hi as int);
    assert(d =~= (if s.len() > 0 && s[0] == '+' {
        s.drop_first()
    } else {
        s
    }));
    if start == hi {
        assert(d.len() == 0);
        return None;
    }
    let mut acc: u64 = 0;
    let mut i: usize = start;
    while i < hi
        invariant
            start <= i <= hi <= v@.len(),
            lo <= start,
            d == v@.subrange(start as int, hi as int),
            s == v@.subrange(lo as int, hi as int),
            d == (if s.len() > 0 && s[0] == '+' {
                s.drop_first()
            } else {
                s
            }),
            d.len() > 0,
            all_digits(v@.subrange(start as int, i as int)),
            acc == digits_value(v@.subrange(start as int, i as int)),
        decreases hi - i,
    {
        let c = v[i];
        let ghost pre = v@.subrange(start as int, i + 1);
        assert(pre.drop_last() =~= v@.subrange(start as int, i as int));
        assert(pre.last() == c);
        if c < '0' || c > '9' {
            assert(d[i - start] == c);
            assert(!all_digits(d));
            return None;
        }
        let digit = (c as u32 - 48) as u64;
        assert(all_digits(pre)) by {
            assert forall|k: int| 0 <= k < pre.len() implies '0' <= #[trigger] pre[k] && pre[k]
                <= '9' by {
                if k < pre.len() - 1 {
                    assert(pre[k] == v@.subrange(start as int, i as int)[k]);
                }
            }
        }
        match acc.checked_mul(10) {
            Some(m) => match m.checked_add(digit) {
                Some(n) => {
                    acc = n;
                },
                None => {
                    proof {
                        finish_overflow(v, start, i, hi, d);
                    }
                    return None;
                },
            },
            None => {
                proof {
                    lemma_digits_nonneg(v@.subrange(start as int, i as int));
                    finish_overflow(v, start, i, hi, d);
                }
                return None;
            },
        }
        i = i + 1;
    }
    assert(v@.subrange(start as int, hi as int) =~= d);
    Some(acc)
}

/// When the digits up to `i` already spell more than `u64::MAX`, or are followed
/// by a non-digit, the whole does not parse.
proof fn finish_overflow(v: &[char], start: usize, i: usize, hi: usize, d: Seq<char>)
    requires
        start <= i < hi <= v@.len(),
        d == v@.subrange(start as int, hi as int),
        all_digits(v@.subrange(start as int, i + 1)),
        digits_value(v@.subrange(start as int, i + 1)) > u64::MAX,
    ensures
        !all_digits(d) || digits_value(d) > u64::MAX,
{
    if all_digits(d) {
        lemma_digits_prefix(d, i + 1 - start);
        assert(d.subrange(0, i + 1 - start) =~= v@.subrange(start as int, i + 1));
    }
}

/// The parts of one LRC line (see [`lrc_parts`]).
pub fn parse_lrc_line(line: &str) -> (r: Option<LrcLine>)
    ensures
        match lrc_parts(line@) {
            Some(p) => r matches Some(l) && lrc_view(l) == p,
            None => r is None,
        },
{
    let v = chars_of(line);
    let close = match find_char(v.as_slice(), 0, v.len(), ']') {
        Some(c) => c,
        None => {
            assert(v@.subrange(0, v@.len() as int) =~= line@);
            return None;
        },
    };
    assert(v@.subrange(0, v@.len() as int) =~= line@);
    proof {
        lemma_first_index_bound(line@, ']');
    }
    if v.len() == 0 || v[0] != '[' {
        return None;
    }
    assert(close >= 1);
    let ghost ts = line@.subrange(1, close as int);
    if count_char_upto2(v.as_slice(), 1, close, ':') != 1 {
        return None;
    }
    let k = match find_char(v.as_slice(), 1, close, ':') {
        Some(k) => k,
        None => {
            proof {
                lemma_count_means_found(ts, ':');
            }
            return None;
        },
    };
    proof {
        lemma_first_index_bound(ts, ':');
    }
    assert(ts.subrange(0, k as int) =~= v@.subrange(1, 1 + k as int));
    let minutes = match parse_u64_range(v.as_slice(), 1, 1 + k) {
        Some(m) => m,
        None => return None,
    };
    let seconds = string_from_range(v.as_slice(), 1 + k + 1, close);
    let text = string_from_range(v.as_slice(), close + 1, v.len());
    assert(seconds@ =~= ts.subrange(k + 1, ts.len() as int));
    Some(LrcLine { minutes, seconds, text })
}

/// A character that occurs once is found.
proof fn lemma_count_means_found(s: Seq<char>, c: char)
    requires
        count_of(s, c) >= 1,
    ensures
        first_index(s, c) is Some,
    decreases s.len(),
{
    if s.len() > 0 && s[0] != c {
        lemma_count_front(s, c);
        lemma_count_means_found(s.drop_first(), c);
    }
}

/// Counting from the front agrees with counting from the back.
proof fn lemma_count_front(s: Seq<char>, c: char)
    requires
        s.len() > 0,
    ensures
        count_of(s, c) == count_of(s.drop_first(), c) + (if s[0] == c {
            1nat
        } else {
            0nat
        }),
    decreases s.len(),
{
    if s.len() > 1 {
        lemma_count_front(s.drop_last(), c);
        assert(s.drop_last().drop_first() =~= s.drop_first().drop_last());
    } else {
        assert(s.drop_first() =~= Seq::<char>::empty());
        assert(s.drop_last() =~= Seq::<char>::empty());
    }
}

/// The LRC lines of a text (see [`lrc_collect`]).
pub fn lrc_lines(content: &str) -> (r: Vec<LrcLine>)
    ensures
        r@.map_values(|l: LrcLine| lrc_view(l)) == lrc_collect(split_lines(content@)),
{
    let lines = lines_of(content);
    let ghost all = lines@.map_values(|x: String| x@);
    let mut out: Vec<LrcLine> = Vec::new();
    let mut i: usize = 0;
    while i < lines.len()
        invariant
            i <= lines@.len(),
            all == lines@.map_values(|x: String| x@),
            out@.map_values(|l: LrcLine| lrc_view(l)) == lrc_collect(all.subrange(0, i as int)),
        decreases lines@.len() - i,
    {
        let ghost pre = all.subrange(0, i as int + 1);
        assert(pre.drop_last() =~= all.subrange(0, i as int));
        assert(pre.last() == lines@[i as int]@);
        let ghost before = out@.map_values(|l: LrcLine| lrc_view(l));
        let v = chars_of(lines[i].as_str());
        let (lo, hi) = trim_bounds(v.as_slice());
        if lo < hi {
            let t = string_from_range(v.as_slice(), lo, hi);
            match parse_lrc_line(t.as_str()) {
                Some(l) => {
                    out.push(l);
                    assert(out@.map_values(|l: LrcLine| lrc_view(l)) =~= before.push(
                        lrc_view(out@.last()),
                    ));
                },
                None => {},
            }
        }
        i = i + 1;
    }
    assert(all.subrange(0, all.len() as int) =~= all);
    out
}

/// `later` is a strict weak order.
pub proof fn lemma_later_order()
    ensures
        strict_weak_order(later()),
{
}

/// Sorts timestamped lines by timestamp, keeping the order of equal timestamps.
fn sort_by_time(v: Vec<(u64, String)>) -> (r: Vec<(u64, String)>)
    ensures
        timed_view(r@) == stable_sort(timed_view(v@), later()),
{
    let mut out: Vec<(u64, String)> = Vec::new();
    let ghost src = timed_view(v@);
    let mut i: usize = 0;
    while i < v.len()
        invariant
            i <= v@.len(),
            src == timed_view(v@),
            timed_view(out@) == stable_sort(src.subrange(0, i as int), later()),
        decreases v@.len() - i,
    {
        let x = (v[i].0, v[i].1.clone());
        let ghost xv = (x.0, x.1@);
        let ghost cur = timed_view(out@);
        let mut j: usize = out.len();
        while j > 0 && out[j - 1].0 > x.0
            invariant
                j <= out@.len(),
                cur == timed_view(out@),
                xv == (x.0, x.1@),
                forall|k: int| j <= k < cur.len() ==> (later())(#[trigger] cur[k], xv),
            decreases j,
        {
            assert(cur[j - 1] == (out@[j - 1].0, out@[j - 1].1@));
            j = j - 1;
        }
        proof {
            if j > 0 {
                assert(cur[j - 1] == (out@[j - 1].0, out@[j - 1].1@));
            }
            lemma_sort_insert_at(cur, xv, later(), j as int);
            assert(src.subrange(0, i + 1).drop_last() =~= src.subrange(0, i as int));
            assert(src[i as int] == xv);
        }
        out.insert(j, x);
        assert(timed_view(out@) =~= cur.insert(j as int, xv));
        i = i + 1;
    }
    assert(src.subrange(0, src.len() as int) =~= src);
    out
}

/// The lyrics of an LRC text whose timestamped lines were read as `timed`.
pub fn lyrics_from(content: &str, timed: Vec<(u64, String)>) -> (l: Lyrics)
    ensures
        l@ == lyrics_of(content@, timed_view(timed@)),
        l matches Lyrics::Synced(v) ==> ordered_by(timed_view(v@), later()),
        l matches Lyrics::Synced(v) ==> timed_view(v@).to_multiset() == timed_view(
            timed@,
        ).to_multiset(),
{
    if timed.len() == 0 {
        Lyrics::Unsynced(owned(content))
    } else {
        let ghost tv = timed_view(timed@);
        let sorted = sort_by_time(timed);
        proof {
            lemma_stable_sort_ordered(tv, later());
            lemma_stable_sort_multiset(tv, later());
        }
        Lyrics::Synced(sorted)
    }
}

/// Lyrics from a tag's text: the text, unless it is blank.
pub fn embedded_lyrics(text: Option<String>) -> (l: Option<Lyrics>)
    ensures
        match text {
            Some(t) => if trim(t@).len() > 0 {
                l matches Some(x) && x@ == LyricsView::Unsynced(t@)
            } else {
                l is None
            },
            None => l is None,
        },
{
    match text {
        Some(t) => {
            let v = chars_of(t.as_str());
            let (lo, hi) = trim_bounds(v.as_slice());
            if lo < hi {
                Some(Lyrics::Unsynced(t))
            } else {
                None
            }
        },
        None => None,
    }
}

} // verus!
