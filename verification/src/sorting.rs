//! Stable sorting, stated as insertion sort over a "comes strictly after" relation,
//! with its laws: the result is ordered and is a permutation of the input.
use vstd::prelude::*;

verus! {

/// Inserts `x` into `s` after every element that does not come strictly after it.
pub open spec fn sort_insert<T>(s: Seq<T>, x: T, gt: spec_fn(T, T) -> bool) -> Seq<T>
    decreases s.len(),
{
    if s.len() == 0 {
        seq![x]
    } else if gt(s.last(), x) {
        sort_insert(s.drop_last(), x, gt).push(s.last())
    } else {
        s.push(x)
    }
}

/// Stable sort of `s`: elements are ordered by `gt`, and elements that neither
/// comes after the other keep their relative order from the input.
pub open spec fn stable_sort<T>(s: Seq<T>, gt: spec_fn(T, T) -> bool) -> Seq<T>
    decreases s.len(),
{
    if s.len() == 0 {
        s
    } else {
        sort_insert(stable_sort(s.drop_last(), gt), s.last(), gt)
    }
}

/// `s` never has an element that comes strictly after a later one.
pub open spec fn ordered_by<T>(s: Seq<T>, gt: spec_fn(T, T) -> bool) -> bool {
    forall|i: int, j: int| 0 <= i < j < s.len() ==> !gt(#[trigger] s[i], #[trigger] s[j])
}

/// `gt` is a strict weak order: irreflexive, transitive, and "neither after the
/// other" is transitive too.
pub open spec fn strict_weak_order<T>(gt: spec_fn(T, T) -> bool) -> bool {
    &&& forall|a: T| !#[trigger] gt(a, a)
    &&& forall|a: T, b: T, c: T| #[trigger] gt(a, b) && #[trigger] gt(b, c) ==> gt(a, c)
    &&& forall|a: T, b: T, c: T| !#[trigger] gt(a, b) && !#[trigger] gt(b, c) ==> !gt(a, c)
}

/// Inserting at `j` is `sort_insert` when every element from `j` on comes after `x`
/// and the one before `j` (if any) does not.
pub proof fn lemma_sort_insert_at<T>(s: Seq<T>, x: T, gt: spec_fn(T, T) -> bool, j: int)
    requires
        0 <= j <= s.len(),
        forall|k: int| j <= k < s.len() ==> gt(#[trigger] s[k], x),
        j > 0 ==> !gt(s[j - 1], x),
    ensures
        sort_insert(s, x, gt) == s.insert(j, x),
    decreases s.len(),
{
    if s.len() == 0 {
        assert(s.insert(j, x) =~= seq![x]);
    } else if j == s.len() {
        assert(s.insert(j, x) =~= s.push(x));
    } else {
        assert(gt(s.last(), x));
        lemma_sort_insert_at(s.drop_last(), x, gt, j);
        assert(s.drop_last().insert(j, x).push(s.last()) =~= s.insert(j, x));
    }
}

/// `sort_insert` keeps the elements, adding `x` once.
pub proof fn lemma_sort_insert_multiset<T>(s: Seq<T>, x: T, gt: spec_fn(T, T) -> bool)
    ensures
        sort_insert(s, x, gt).to_multiset() == s.to_multiset().insert(x),
        sort_insert(s, x, gt).len() == s.len() + 1,
    decreases s.len(),
{
    broadcast use vstd::seq_lib::group_to_multiset_ensures;

    if s.len() == 0 {
        assert(seq![x] =~= Seq::<T>::empty().push(x));
    } else if gt(s.last(), x) {
        lemma_sort_insert_multiset(s.drop_last(), x, gt);
        assert(s =~= s.drop_last().push(s.last()));
        assert(s.to_multiset() =~= s.drop_last().to_multiset().insert(s.last()));
        assert(sort_insert(s, x, gt).to_multiset() =~= s.to_multiset().insert(x));
    } else {
    }
}

/// A stable sort is a permutation of its input.
pub proof fn lemma_stable_sort_multiset<T>(s: Seq<T>, gt: spec_fn(T, T) -> bool)
    ensures
        stable_sort(s, gt).to_multiset() == s.to_multiset(),
        stable_sort(s, gt).len() == s.len(),
    decreases s.len(),
{
    broadcast use vstd::seq_lib::group_to_multiset_ensures;

    if s.len() > 0 {
        lemma_stable_sort_multiset(s.drop_last(), gt);
        lemma_sort_insert_multiset(stable_sort(s.drop_last(), gt), s.last(), gt);
        assert(s =~= s.drop_last().push(s.last()));
    }
}

/// `sort_insert` into an ordered sequence gives an ordered sequence.
pub proof fn lemma_sort_insert_ordered<T>(s: Seq<T>, x: T, gt: spec_fn(T, T) -> bool)
    requires
        strict_weak_order(gt),
        ordered_by(s, gt),
    ensures
        ordered_by(sort_insert(s, x, gt), gt),
    decreases s.len(),
{
    if s.len() == 0 {
    } else if gt(s.last(), x) {
        let p = s.drop_last();
        assert(ordered_by(p, gt)) by {
            assert forall|i: int, j: int| 0 <= i < j < p.len() implies !gt(
                #[trigger] p[i],
                #[trigger] p[j],
            ) by {
                assert(p[i] == s[i] && p[j] == s[j]);
            }
        }
        lemma_sort_insert_ordered(p, x, gt);
        lemma_sort_insert_multiset(p, x, gt);
        let q = sort_insert(p, x, gt);
        let r = q.push(s.last());
        assert forall|i: int, j: int| 0 <= i < j < r.len() implies !gt(
            #[trigger] r[i],
            #[trigger] r[j],
        ) by {
            if j == r.len() - 1 {
                // r[i] is x or an element of p; none comes after s.last()
                lemma_sort_insert_members(p, x, gt, i);
                if q[i] == x {
                    // gt(x, last) would contradict gt(last, x) by irreflexivity + transitivity
                    if gt(x, s.last()) {
                        assert(gt(x, x));
                    }
                } else {
                    let k = choose|k: int| 0 <= k < p.len() && p[k] == q[i];
                    assert(s[k] == p[k]);
                    assert(!gt(s[k], s[s.len() - 1]));
                }
            }
        }
    } else {
        let r = s.push(x);
        assert forall|i: int, j: int| 0 <= i < j < r.len() implies !gt(
            #[trigger] r[i],
            #[trigger] r[j],
        ) by {
            if j == r.len() - 1 && i < s.len() - 1 {
                assert(!gt(s[i], s[s.len() - 1]));
            }
        }
    }
}

/// Every element of `sort_insert(s, x)` is `x` or an element of `s`.
pub proof fn lemma_sort_insert_members<T>(s: Seq<T>, x: T, gt: spec_fn(T, T) -> bool, i: int)
    requires
        0 <= i < s.len() + 1,
    ensures
        sort_insert(s, x, gt).len() == s.len() + 1,
        sort_insert(s, x, gt)[i] == x || exists|k: int|
            0 <= k < s.len() && s[k] == sort_insert(s, x, gt)[i],
    decreases s.len(),
{
    lemma_sort_insert_multiset(s, x, gt);
    if s.len() == 0 {
    } else if gt(s.last(), x) {
        if i < s.len() {
            lemma_sort_insert_members(s.drop_last(), x, gt, i);
            let q = sort_insert(s.drop_last(), x, gt);
            if q[i] != x {
                let k = choose|k: int| 0 <= k < s.drop_last().len() && s.drop_last()[k] == q[i];
                assert(s[k] == q[i]);
            }
        } else {
            assert(s[s.len() - 1] == sort_insert(s, x, gt)[i]);
        }
    } else {
        if i < s.len() {
            assert(s[i] == sort_insert(s, x, gt)[i]);
        }
    }
}

/// A stable sort under a strict weak order is ordered.
pub proof fn lemma_stable_sort_ordered<T>(s: Seq<T>, gt: spec_fn(T, T) -> bool)
    requires
        strict_weak_order(gt),
    ensures
        ordered_by(stable_sort(s, gt), gt),
    decreases s.len(),
{
    if s.len() > 0 {
        lemma_stable_sort_ordered(s.drop_last(), gt);
        lemma_sort_insert_ordered(stable_sort(s.drop_last(), gt), s.last(), gt);
    }
}

} // verus!
