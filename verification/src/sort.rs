//! Stable sorting by a strict "goes before" relation on views, the way the
//! interface orders directories, groups, members and entries.

use vstd::prelude::*;
use vstd::multiset::Multiset;

verus! {

/// Values that can be put in order: `goes_before` holds when a value with the
/// first view must come strictly before a value with the second.
pub trait SortKey: View + Sized {
    spec fn goes_before(a: Self::V, b: Self::V) -> bool;

    fn goes_before_exec(&self, other: &Self) -> (r: bool)
        ensures
            r == Self::goes_before(self@, other@);
}

/// `x` inserted into `s` after every element it does not go before.
pub open spec fn insert_stable<T: SortKey>(s: Seq<T::V>, x: T::V) -> Seq<T::V>
    decreases s.len(),
{
    if s.len() == 0 {
        seq![x]
    } else if T::goes_before(x, s.last()) {
        insert_stable::<T>(s.drop_last(), x).push(s.last())
    } else {
        s.push(x)
    }
}

/// The stable sort of `s`: its elements inserted one after the other, so
/// that elements neither of which goes before the other keep their order.
pub open spec fn stable_sorted<T: SortKey>(s: Seq<T::V>) -> Seq<T::V>
    decreases s.len(),
{
    if s.len() == 0 {
        s
    } else {
        insert_stable::<T>(stable_sorted::<T>(s.drop_last()), s.last())
    }
}

proof fn lemma_insert_stable_multiset<T: SortKey>(s: Seq<T::V>, x: T::V)
    ensures
        insert_stable::<T>(s, x).to_multiset() == s.to_multiset().insert(x),
    decreases s.len(),
{
    broadcast use vstd::seq_lib::to_multiset_build;
    broadcast use vstd::multiset::group_multiset_axioms;
    if s.len() == 0 {
        broadcast use vstd::seq_lib::to_multiset_len;
        broadcast use vstd::multiset::lemma_multiset_empty_len;
        assert(s.to_multiset().len() == 0);
        assert(s.to_multiset() =~= Multiset::<T::V>::empty());
        assert(seq![x] =~= s.push(x));
    } else {
        let p = s.drop_last();
        assert(s =~= p.push(s.last()));
        if T::goes_before(x, s.last()) {
            lemma_insert_stable_multiset::<T>(p, x);
            assert(insert_stable::<T>(s, x).to_multiset() =~= s.to_multiset().insert(x));
        }
    }
}

/// Sorting keeps the elements: the sorted list holds each element as many
/// times as the list did.
pub proof fn law_stable_sort_permutes<T: SortKey>(s: Seq<T::V>)
    ensures
        stable_sorted::<T>(s).to_multiset() == s.to_multiset(),
    decreases s.len(),
{
    broadcast use vstd::seq_lib::to_multiset_build;
    if s.len() > 0 {
        let p = s.drop_last();
        law_stable_sort_permutes::<T>(p);
        lemma_insert_stable_multiset::<T>(stable_sorted::<T>(p), s.last());
        assert(s =~= p.push(s.last()));
    }
}

/// Whether `goes_before` is a strict weak order on the views: no two views go
/// before each other, and when `a` goes before `b`, any `c` goes after `a` or
/// before `b`.
pub open spec fn strict_weak<T: SortKey>() -> bool {
    &&& forall|a: T::V, b: T::V| #[trigger] T::goes_before(a, b) ==> !T::goes_before(b, a)
    &&& forall|a: T::V, b: T::V, c: T::V|
        #![trigger T::goes_before(a, b), T::goes_before(a, c)]
        #![trigger T::goes_before(a, b), T::goes_before(c, b)]
        T::goes_before(a, b) ==> T::goes_before(a, c) || T::goes_before(c, b)
}

/// Whether no element of `s` goes before an element placed earlier.
pub open spec fn is_sorted<T: SortKey>(s: Seq<T::V>) -> bool {
    forall|i: int, j: int| 0 <= i < j < s.len() ==> !T::goes_before(#[trigger] s[j], #[trigger] s[i])
}

proof fn lemma_insert_stable_elements<T: SortKey>(s: Seq<T::V>, x: T::V)
    ensures
        insert_stable::<T>(s, x).len() == s.len() + 1,
        forall|i: int| 0 <= i < insert_stable::<T>(s, x).len() ==> (#[trigger] insert_stable::<T>(s, x)[i] == x
            || s.contains(insert_stable::<T>(s, x)[i])),
    decreases s.len(),
{
    if s.len() > 0 && T::goes_before(x, s.last()) {
        let p = s.drop_last();
        lemma_insert_stable_elements::<T>(p, x);
        let r = insert_stable::<T>(s, x);
        let q = insert_stable::<T>(p, x);
        assert forall|i: int| 0 <= i < r.len() implies (#[trigger] r[i] == x || s.contains(r[i])) by {
            if i < q.len() {
                assert(r[i] == q[i]);
                if q[i] != x {
                    let k = choose|k: int| 0 <= k < p.len() && p[k] == q[i];
                    assert(s[k] == p[k]);
                }
            } else {
                assert(r[i] == s[s.len() - 1]);
            }
        }
    } else if s.len() > 0 {
        let r = s.push(x);
        assert forall|i: int| 0 <= i < r.len() implies (#[trigger] r[i] == x || s.contains(r[i])) by {
            if i < s.len() {
                assert(r[i] == s[i]);
            }
        }
    }
}

proof fn lemma_insert_stable_sorted<T: SortKey>(s: Seq<T::V>, x: T::V)
    requires
        strict_weak::<T>(),
        is_sorted::<T>(s),
    ensures
        is_sorted::<T>(insert_stable::<T>(s, x)),
    decreases s.len(),
{
    if s.len() > 0 {
        let p = s.drop_last();
        let last = s.last();
        if T::goes_before(x, last) {
            assert(is_sorted::<T>(p)) by {
                assert forall|i: int, j: int| 0 <= i < j < p.len() implies !T::goes_before(#[trigger] p[j], #[trigger] p[i]) by {
                    assert(p[i] == s[i] && p[j] == s[j]);
                }
            }
            lemma_insert_stable_sorted::<T>(p, x);
            lemma_insert_stable_elements::<T>(p, x);
            let q = insert_stable::<T>(p, x);
            let r = q.push(last);
            assert forall|i: int, j: int| 0 <= i < j < r.len() implies !T::goes_before(#[trigger] r[j], #[trigger] r[i]) by {
                if j < q.len() {
                    assert(r[i] == q[i] && r[j] == q[j]);
                } else {
                    assert(r[j] == last);
                    assert(r[i] == q[i]);
                    if q[i] == x {
                        assert(!T::goes_before(last, x));
                    } else {
                        let k = choose|k: int| 0 <= k < p.len() && p[k] == q[i];
                        assert(s[k] == q[i]);
                        assert(s[s.len() - 1] == last);
                    }
                }
            }
        } else {
            let r = s.push(x);
            assert forall|i: int, j: int| 0 <= i < j < r.len() implies !T::goes_before(#[trigger] r[j], #[trigger] r[i]) by {
                if j < s.len() {
                    assert(r[i] == s[i] && r[j] == s[j]);
                } else {
                    assert(r[j] == x);
                    assert(r[i] == s[i]);
                    if i < s.len() - 1 {
                        assert(s[s.len() - 1] == last);
                        assert(!T::goes_before(last, s[i]));
                        if T::goes_before(x, s[i]) {
                            assert(T::goes_before(x, last) || T::goes_before(last, s[i]));
                        }
                    }
                }
            }
        }
    }
}

/// Under a strict weak order, sorting puts the elements in order: no element
/// goes before one placed earlier.
pub proof fn law_stable_sort_sorted<T: SortKey>(s: Seq<T::V>)
    requires
        strict_weak::<T>(),
    ensures
        is_sorted::<T>(stable_sorted::<T>(s)),
    decreases s.len(),
{
    if s.len() > 0 {
        law_stable_sort_sorted::<T>(s.drop_last());
        lemma_insert_stable_sorted::<T>(stable_sorted::<T>(s.drop_last()), s.last());
    }
}

/// Whether neither of `a` and `b` goes before the other.
pub open spec fn tied<T: SortKey>(a: T::V, b: T::V) -> bool {
    !T::goes_before(a, b) && !T::goes_before(b, a)
}

/// The elements of `s` tied with `y`, in their order.
pub open spec fn ties_of<T: SortKey>(s: Seq<T::V>, y: T::V) -> Seq<T::V>
    decreases s.len(),
{
    if s.len() == 0 {
        s
    } else if tied::<T>(s.last(), y) {
        ties_of::<T>(s.drop_last(), y).push(s.last())
    } else {
        ties_of::<T>(s.drop_last(), y)
    }
}

proof fn lemma_insert_stable_ties<T: SortKey>(s: Seq<T::V>, x: T::V, y: T::V)
    requires
        strict_weak::<T>(),
    ensures
        ties_of::<T>(insert_stable::<T>(s, x), y) == if tied::<T>(x, y) {
            ties_of::<T>(s, y).push(x)
        } else {
            ties_of::<T>(s, y)
        },
    decreases s.len(),
{
    if s.len() == 0 {
        assert(seq![x].drop_last() =~= s);
    } else {
        let p = s.drop_last();
        let last = s.last();
        if T::goes_before(x, last) {
            lemma_insert_stable_ties::<T>(p, x, y);
            let q = insert_stable::<T>(p, x);
            assert(q.push(last).drop_last() =~= q);
            if tied::<T>(x, y) {
                assert(T::goes_before(x, y) || T::goes_before(y, last));
            }
        } else {
            assert(s.push(x).drop_last() =~= s);
        }
    }
}

/// Under a strict weak order, sorting keeps ties in their order: the
/// elements tied with any value come out in the order they came in.
pub proof fn law_stable_sort_keeps_ties<T: SortKey>(s: Seq<T::V>, y: T::V)
    requires
        strict_weak::<T>(),
    ensures
        ties_of::<T>(stable_sorted::<T>(s), y) == ties_of::<T>(s, y),
    decreases s.len(),
{
    if s.len() > 0 {
        law_stable_sort_keeps_ties::<T>(s.drop_last(), y);
        lemma_insert_stable_ties::<T>(stable_sorted::<T>(s.drop_last()), s.last(), y);
    }
}

/// The views of a list of values.
pub open spec fn views<T: View>(s: Seq<T>) -> Seq<T::V> {
    s.map_values(|x: T| x@)
}

/// Sorts `v` stably by `goes_before`.
pub fn stable_sort<T: SortKey>(v: Vec<T>) -> (r: Vec<T>)
    ensures
        views(r@) == stable_sorted::<T>(views(v@)),
{
    let ghost input = views(v@);
    let ghost ov = v@;
    let mut rest = v;
    let mut out: Vec<T> = Vec::new();
    let n = rest.len();
    let mut i: usize = 0;
    assert(input.take(0) =~= Seq::<T::V>::empty());
    assert(views(out@) =~= Seq::<T::V>::empty());
    assert(rest@ =~= ov.skip(0));
    while i < n
        invariant
            n == ov.len(),
            input == views(ov),
            i <= n,
            rest@ == ov.skip(i as int),
            views(out@) == stable_sorted::<T>(input.take(i as int)),
        decreases n - i,
    {
        let x = rest.remove(0);
        assert(x == ov[i as int]);
        assert(rest@ =~= ov.skip(i + 1));
        let ghost s = views(out@);
        let ghost xv = x@;
        let mut k = out.len();
        assert(s.subrange(0, k as int) =~= s);
        assert(s.subrange(k as int, s.len() as int) =~= Seq::<T::V>::empty());
        while k > 0 && x.goes_before_exec(&out[k - 1])
            invariant
                views(out@) == s,
                xv == x@,
                k <= s.len(),
                insert_stable::<T>(s, xv) == insert_stable::<T>(s.subrange(0, k as int), xv) + s.subrange(k as int, s.len() as int),
            decreases k,
        {
            assert(out@[k - 1]@ == s[k - 1]);
            let ghost p = s.subrange(0, k as int);
            assert(p.drop_last() =~= s.subrange(0, k - 1));
            assert(p.last() == s[k - 1]);
            assert(s.subrange(k - 1, s.len() as int) =~= seq![s[k - 1]] + s.subrange(k as int, s.len() as int));
            assert(insert_stable::<T>(p, xv) == insert_stable::<T>(s.subrange(0, k - 1), xv).push(s[k - 1]));
            assert(insert_stable::<T>(s.subrange(0, k - 1), xv).push(s[k - 1]) + s.subrange(k as int, s.len() as int)
                =~= insert_stable::<T>(s.subrange(0, k - 1), xv) + s.subrange(k - 1, s.len() as int));
            k = k - 1;
        }
        proof {
            let p = s.subrange(0, k as int);
            if k == 0 {
                assert(insert_stable::<T>(p, xv) == seq![xv]);
            } else {
                assert(out@[k - 1]@ == s[k - 1]);
                assert(insert_stable::<T>(p, xv) == p.push(xv));
            }
        }
        let ghost before = out@;
        out.insert(k, x);
        assert(views(out@) =~= insert_stable::<T>(s.subrange(0, k as int), xv) + s.subrange(k as int, s.len() as int)) by {
            assert forall|j: int| 0 <= j < out@.len() implies views(out@)[j] == (insert_stable::<T>(s.subrange(0, k as int), xv) + s.subrange(k as int, s.len() as int))[j] by {
                if j < k {
                    assert(out@[j] == before[j]);
                } else if j > k {
                    assert(out@[j] == before[j - 1]);
                }
            }
        }
        assert(input.take(i + 1).drop_last() =~= input.take(i as int));
        assert(input.take(i + 1).last() == xv);
        i = i + 1;
    }
    assert(input.take(n as int) =~= input);
    out
}

} // verus!
