//! Stable ordering by insertion, as the listings of the launcher need it.
use vstd::prelude::*;

verus! {

/// `sorted` with `x` put after its last element that `x` does not go before
/// (`goes_before(x, e)`: `x` belongs in front of `e`).
pub open spec fn insert_stable<T>(sorted: Seq<T>, x: T, goes_before: spec_fn(T, T) -> bool) -> Seq<T>
    decreases sorted.len(),
{
    if sorted.len() == 0 {
        seq![x]
    } else if goes_before(x, sorted.last()) {
        insert_stable(sorted.drop_last(), x, goes_before).push(sorted.last())
    } else {
        sorted.push(x)
    }
}

/// `s` ordered by `goes_before`, elements that neither goes before in the
/// order they came in (the order of a stable sort).
pub open spec fn stable_sorted<T>(s: Seq<T>, goes_before: spec_fn(T, T) -> bool) -> Seq<T>
    decreases s.len(),
{
    if s.len() == 0 {
        Seq::empty()
    } else {
        insert_stable(stable_sorted(s.drop_last(), goes_before), s.last(), goes_before)
    }
}

/// Inserting at the position found by scanning back from the end.
pub proof fn lemma_insert_stable_at<T>(s: Seq<T>, x: T, goes_before: spec_fn(T, T) -> bool, p: int)
    requires
        0 <= p <= s.len(),
        p == 0 || !goes_before(x, s[p - 1]),
        forall|k: int| p <= k < s.len() ==> goes_before(x, #[trigger] s[k]),
    ensures
        insert_stable(s, x, goes_before) == s.take(p).push(x) + s.skip(p),
    decreases s.len(),
{
    if s.len() == p {
        if s.len() == 0 {
            assert(s.take(p).push(x) + s.skip(p) =~= seq![x]);
        } else {
            assert(s.take(p) =~= s);
            assert(s.take(p).push(x) + s.skip(p) =~= s.push(x));
        }
    } else {
        lemma_insert_stable_at(s.drop_last(), x, goes_before, p);
        assert(s.drop_last().take(p) =~= s.take(p));
        assert(s.take(p).push(x) + s.skip(p) =~= (s.drop_last().take(p).push(x) + s.drop_last().skip(p)).push(
            s.last(),
        ));
    }
}

/// One more element of the input, inserted.
pub proof fn lemma_stable_sorted_step<T>(s: Seq<T>, k: int, goes_before: spec_fn(T, T) -> bool)
    requires
        0 <= k < s.len(),
    ensures
        stable_sorted(s.take(k + 1), goes_before) == insert_stable(stable_sorted(s.take(k), goes_before), s[k], goes_before),
{
    assert(s.take(k + 1).drop_last() =~= s.take(k));
}

/// No later element goes before an earlier one.
pub open spec fn sorted_by<T>(s: Seq<T>, goes_before: spec_fn(T, T) -> bool) -> bool {
    forall|i: int, j: int| 0 <= i < j < s.len() ==> !goes_before(#[trigger] s[j], #[trigger] s[i])
}

/// `goes_before` orders strictly: nothing goes before itself, going before
/// is transitive, and so is not going before.
pub open spec fn strict_order<T>(goes_before: spec_fn(T, T) -> bool) -> bool {
    &&& forall|a: T| !#[trigger] goes_before(a, a)
    &&& forall|a: T, b: T, c: T| #[trigger] goes_before(a, b) && #[trigger] goes_before(b, c) ==> goes_before(a, c)
    &&& forall|a: T, b: T, c: T|
        !#[trigger] goes_before(a, b) && !#[trigger] goes_before(b, c) ==> !goes_before(a, c)
}

proof fn lemma_insert_stable_sorted<T>(s: Seq<T>, x: T, goes_before: spec_fn(T, T) -> bool)
    requires
        strict_order(goes_before),
        sorted_by(s, goes_before),
    ensures
        sorted_by(insert_stable(s, x, goes_before), goes_before),
        insert_stable(s, x, goes_before).to_multiset() == s.to_multiset().insert(x),
    decreases s.len(),
{
    broadcast use vstd::seq_lib::group_to_multiset_ensures;

    if s.len() == 0 {
        assert(seq![x] =~= Seq::<T>::empty().push(x));
    } else {
        let last = s.last();
        let dl = s.drop_last();
        assert(dl.push(last) =~= s);
        if goes_before(x, last) {
            assert(sorted_by(dl, goes_before));
            lemma_insert_stable_sorted(dl, x, goes_before);
            let m = insert_stable(dl, x, goes_before);
            let r = m.push(last);
            assert forall|i: int, j: int| 0 <= i < j < r.len() implies !goes_before(#[trigger] r[j], #[trigger] r[i]) by {
                if j == r.len() - 1 {
                    let e = m[i];
                    assert(m.to_multiset().count(e) > 0);
                    if e != x {
                        assert(dl.to_multiset().count(e) > 0);
                        assert(dl.contains(e));
                        let k = choose|k: int| 0 <= k < dl.len() && dl[k] == e;
                        assert(s[k] == e);
                        assert(s[s.len() - 1] == last);
                    } else {
                        if goes_before(last, x) {
                            assert(goes_before(last, last));
                        }
                    }
                }
            }
        } else {
            let r = s.push(x);
            assert forall|i: int, j: int| 0 <= i < j < r.len() implies !goes_before(#[trigger] r[j], #[trigger] r[i]) by {
                if j == s.len() && i < s.len() - 1 {
                    assert(s[s.len() - 1] == last);
                    assert(!goes_before(last, s[i]));
                }
            }
        }
    }
}

/// A stable sort orders its input and keeps exactly its elements.
pub proof fn lemma_stable_sorted<T>(s: Seq<T>, goes_before: spec_fn(T, T) -> bool)
    requires
        strict_order(goes_before),
    ensures
        sorted_by(stable_sorted(s, goes_before), goes_before),
        stable_sorted(s, goes_before).to_multiset() == s.to_multiset(),
    decreases s.len(),
{
    broadcast use vstd::seq_lib::group_to_multiset_ensures;

    if s.len() > 0 {
        lemma_stable_sorted(s.drop_last(), goes_before);
        lemma_insert_stable_sorted(stable_sorted(s.drop_last(), goes_before), s.last(), goes_before);
        assert(s.drop_last().push(s.last()) =~= s);
    }
}

} // verus!
