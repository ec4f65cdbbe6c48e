//! Stable ordering of API lists by a per-type key, and the list cap.

use vstd::prelude::*;

verus! {

/// An order on list items: a total preorder, decided by `key_before`.
pub trait SortKey: Sized {
    /// `self` may stand before `other`.
    spec fn key_le(&self, other: &Self) -> bool;

    proof fn key_le_total(a: &Self, b: &Self)
        ensures
            a.key_le(b) || b.key_le(a),
    ;

    proof fn key_le_trans(a: &Self, b: &Self, c: &Self)
        requires
            a.key_le(b),
            b.key_le(c),
        ensures
            a.key_le(c),
    ;

    fn key_before(&self, other: &Self) -> (r: bool)
        ensures
            r == self.key_le(other),
    ;
}

/// `a` and `b` have equal keys.
pub open spec fn same_key<T: SortKey>(a: T, b: T) -> bool {
    a.key_le(&b) && b.key_le(&a)
}

/// Every item may stand before every later one.
pub open spec fn sorted_by_key<T: SortKey>(s: Seq<T>) -> bool {
    forall|i: int, j: int| 0 <= i < j < s.len() ==> #[trigger] s[i].key_le(&s[j])
}

/// The items of `s` whose key equals that of `x`, in their order in `s`.
pub open spec fn key_class<T: SortKey>(s: Seq<T>, x: T) -> Seq<T> {
    s.filter(|y: T| same_key(y, x))
}

/// `out` is `input` sorted by key, items of equal key keeping their order.
pub open spec fn stable_sorted<T: SortKey>(input: Seq<T>, out: Seq<T>) -> bool {
    &&& out.len() == input.len()
    &&& sorted_by_key(out)
    &&& forall|x: T| #[trigger] key_class(out, x) == key_class(input, x)
}

proof fn lemma_filter_push<T>(s: Seq<T>, x: T, pred: spec_fn(T) -> bool)
    ensures
        s.push(x).filter(pred) == (if pred(x) { s.filter(pred).push(x) } else { s.filter(pred) }),
{
    reveal(Seq::filter);
    assert(s.push(x).drop_last() =~= s);
}

proof fn lemma_filter_none<T>(s: Seq<T>, pred: spec_fn(T) -> bool)
    requires
        forall|i: int| 0 <= i < s.len() ==> !pred(#[trigger] s[i]),
    ensures
        s.filter(pred) == Seq::<T>::empty(),
    decreases s.len(),
{
    reveal(Seq::filter);
    if s.len() > 0 {
        lemma_filter_none(s.drop_last(), pred);
    }
}

proof fn lemma_key_le_refl<T: SortKey>(a: T)
    ensures
        a.key_le(&a),
{
    T::key_le_total(&a, &a);
}

/// Inserting `x` after every item that may stand before it, into a
/// sorted list, keeps it sorted and appends `x` to its key class.
proof fn lemma_insert_sorted<T: SortKey>(s: Seq<T>, x: T, p: int)
    requires
        sorted_by_key(s),
        0 <= p <= s.len(),
        forall|k: int| 0 <= k < p ==> #[trigger] s[k].key_le(&x),
        p < s.len() ==> !s[p].key_le(&x),
    ensures
        sorted_by_key(s.insert(p, x)),
        forall|y: T|
            #[trigger] key_class(s.insert(p, x), y) == (if same_key(x, y) {
                key_class(s, y).push(x)
            } else {
                key_class(s, y)
            }),
{
    let t = s.insert(p, x);
    assert forall|k: int| p <= k < s.len() implies !(#[trigger] s[k]).key_le(&x) by {
        if k > p {
            assert(s[p].key_le(&s[k]));
            if s[k].key_le(&x) {
                T::key_le_trans(&s[p], &s[k], &x);
            }
        }
    }
    assert forall|i: int, j: int| 0 <= i < j < t.len() implies #[trigger] t[i].key_le(&t[j]) by {
        if i < p && j == p {
        } else if i == p {
            T::key_le_total(&x, &s[j - 1]);
        } else if i < p && j > p {
            assert(s[i].key_le(&s[j - 1]));
        } else if i > p {
            assert(s[i - 1].key_le(&s[j - 1]));
        } else {
            assert(s[i].key_le(&s[j]));
        }
    }
    assert(t =~= s.take(p) + seq![x] + s.skip(p));
    assert(s =~= s.take(p) + s.skip(p));
    assert forall|y: T|
        #[trigger] key_class(t, y) == (if same_key(x, y) {
            key_class(s, y).push(x)
        } else {
            key_class(s, y)
        }) by {
        let pred = |z: T| same_key(z, y);
        Seq::filter_distributes_over_add(s.take(p) + seq![x], s.skip(p), pred);
        Seq::filter_distributes_over_add(s.take(p), seq![x], pred);
        Seq::filter_distributes_over_add(s.take(p), s.skip(p), pred);
        lemma_filter_push(Seq::<T>::empty(), x, pred);
        assert(Seq::<T>::empty().push(x) =~= seq![x]);
        reveal(Seq::filter);
        assert(Seq::<T>::empty().filter(pred) =~= Seq::<T>::empty());
        if same_key(x, y) {
            let tail = s.skip(p);
            assert forall|k: int| 0 <= k < tail.len() implies !pred(#[trigger] tail[k]) by {
                assert(tail[k] == s[p + k]);
                if same_key(tail[k], y) {
                    T::key_le_trans(&tail[k], &y, &x);
                }
            }
            lemma_filter_none(tail, pred);
            assert(key_class(t, y) =~= key_class(s, y).push(x));
        } else {
            assert(key_class(t, y) =~= key_class(s, y));
        }
    }
}

/// Sorts `v` stably by key (insertion sort).
pub fn stable_sort<T: SortKey>(v: Vec<T>) -> (out: Vec<T>)
    ensures
        stable_sorted(v@, out@),
{
    let ghost orig = v@;
    let mut rest = v;
    let mut out: Vec<T> = Vec::new();
    let ghost mut i: int = 0;
    while rest.len() > 0
        invariant
            0 <= i <= orig.len(),
            rest@ == orig.skip(i),
            out@.len() == i,
            sorted_by_key(out@),
            forall|y: T| #[trigger] key_class(out@, y) == key_class(orig.take(i), y),
        decreases rest@.len(),
    {
        let x = rest.remove(0);
        let mut p: usize = 0;
        while p < out.len() && out[p].key_before(&x)
            invariant
                p <= out@.len(),
                forall|k: int| 0 <= k < p ==> #[trigger] out@[k].key_le(&x),
            decreases out@.len() - p,
        {
            p = p + 1;
        }
        proof {
            lemma_insert_sorted(out@, x, p as int);
            assert(x == orig[i]);
            assert(orig.take(i + 1) =~= orig.take(i).push(x));
            assert forall|y: T| #[trigger] key_class(orig.take(i + 1), y) == (if same_key(x, y) {
                key_class(orig.take(i), y).push(x)
            } else {
                key_class(orig.take(i), y)
            }) by {
                lemma_filter_push(orig.take(i), x, |z: T| same_key(z, y));
            }
            assert(rest@ =~= orig.skip(i + 1));
        }
        out.insert(p, x);
        proof {
            i = i + 1;
        }
    }
    proof {
        assert(orig.take(i) =~= orig);
    }
    out
}

proof fn lemma_sorted_unique<T: SortKey>(a: Seq<T>, b: Seq<T>)
    requires
        a.len() == b.len(),
        sorted_by_key(a),
        sorted_by_key(b),
        forall|y: T| #[trigger] key_class(a, y) == key_class(b, y),
    ensures
        a == b,
    decreases a.len(),
{
    if a.len() > 0 {
        let n = a.len() - 1;
        let la = a[n];
        let lb = b[n];
        let a1 = a.drop_last();
        let b1 = b.drop_last();
        assert(a =~= a1.push(la));
        assert(b =~= b1.push(lb));
        lemma_key_le_refl(la);
        lemma_key_le_refl(lb);
        // la occurs in b, so it may stand before lb; and the other way round.
        lemma_filter_push(a1, la, |z: T| same_key(z, la));
        assert(key_class(a, la).contains(la)) by {
            assert(key_class(a, la)[key_class(a, la).len() - 1] == la);
        }
        assert(key_class(a, la) == key_class(b, la));
        b.lemma_filter_contains_rev(|z: T| same_key(z, la), la);
        let kb = choose|k: int| 0 <= k < b.len() && b[k] == la;
        if kb < n {
            assert(b[kb].key_le(&b[n]));
        }
        lemma_filter_push(b1, lb, |z: T| same_key(z, lb));
        assert(key_class(b, lb).contains(lb)) by {
            assert(key_class(b, lb)[key_class(b, lb).len() - 1] == lb);
        }
        assert(key_class(a, lb) == key_class(b, lb));
        a.lemma_filter_contains_rev(|z: T| same_key(z, lb), lb);
        let ka = choose|k: int| 0 <= k < a.len() && a[k] == lb;
        if ka < n {
            assert(a[ka].key_le(&a[n]));
        }
        assert(same_key(la, lb));
        lemma_filter_push(b1, lb, |z: T| same_key(z, la));
        assert(key_class(a, la) == key_class(b, la));
        assert(la == lb) by {
            let ca = key_class(a, la);
            assert(ca[ca.len() - 1] == la);
            assert(ca[ca.len() - 1] == lb);
        }
        assert forall|y: T| #[trigger] key_class(a1, y) == key_class(b1, y) by {
            lemma_filter_push(a1, la, |z: T| same_key(z, y));
            lemma_filter_push(b1, lb, |z: T| same_key(z, y));
            assert(key_class(a, y) == key_class(b, y));
            if same_key(la, y) {
                assert(key_class(a1, y) =~= key_class(a, y).drop_last());
                assert(key_class(b1, y) =~= key_class(b, y).drop_last());
            }
        }
        assert(sorted_by_key(a1));
        assert(sorted_by_key(b1));
        lemma_sorted_unique(a1, b1);
    }
}

/// Sorting by key is deterministic: two stable sorts of the same list
/// are the same list.
pub proof fn law_stable_sort_unique<T: SortKey>(input: Seq<T>, a: Seq<T>, b: Seq<T>)
    requires
        stable_sorted(input, a),
        stable_sorted(input, b),
    ensures
        a == b,
{
    lemma_sorted_unique(a, b);
}

/// The first `cap` items of the stable sort of `input` (all of them when
/// there are fewer).
pub open spec fn ordered_capped<T: SortKey>(input: Seq<T>, out: Seq<T>, cap: nat) -> bool {
    exists|s: Seq<T>|
        #[trigger] stable_sorted(input, s) && out == (if s.len() > cap {
            s.take(cap as int)
        } else {
            s
        })
}

/// Sorts `v` stably by key and keeps its first `cap` items.
pub fn order_and_cap<T: SortKey>(v: Vec<T>, cap: usize) -> (out: Vec<T>)
    ensures
        ordered_capped(v@, out@, cap as nat),
{
    let mut s = stable_sort(v);
    let ghost sorted = s@;
    if s.len() > cap {
        s.truncate(cap);
    }
    proof {
        assert(stable_sorted(v@, sorted));
    }
    s
}

/// An ordered, capped list is sorted by key, holds `cap` items or all of
/// the input when there are fewer, and holds only items of the input.
pub proof fn law_capped_sorted<T: SortKey>(input: Seq<T>, out: Seq<T>, cap: nat)
    requires
        ordered_capped(input, out, cap),
    ensures
        sorted_by_key(out),
        out.len() == (if input.len() > cap { cap } else { input.len() }),
        forall|i: int| 0 <= i < out.len() ==> input.contains(#[trigger] out[i]),
{
    let s = choose|s: Seq<T>| #[trigger] stable_sorted(input, s) && out == (if s.len() > cap {
        s.take(cap as int)
    } else {
        s
    });
    assert forall|i: int| 0 <= i < out.len() implies input.contains(#[trigger] out[i]) by {
        let x = out[i];
        assert(x == s[i]);
        lemma_key_le_refl(x);
        assert(s =~= s.take(i) + s.skip(i));
        assert(key_class(s, x).contains(x)) by {
            let pred = |z: T| same_key(z, x);
            Seq::filter_distributes_over_add(s.take(i), s.skip(i), pred);
            s.skip(i).lemma_filter_contains(pred, 0);
            let k = choose|k: int| 0 <= k < s.skip(i).filter(pred).len() && s.skip(i).filter(pred)[k] == x;
            assert(key_class(s, x)[s.take(i).filter(pred).len() + k] == x);
        }
        assert(key_class(s, x) == key_class(input, x));
        input.lemma_filter_contains_rev(|z: T| same_key(z, x), x);
    }
}

} // verus!
