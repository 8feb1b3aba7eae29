//! Stable ordering: the insertion order a stable sort produces for a strict
//! "goes before" relation, and the facts the exec sorts rest on.

use vstd::prelude::*;
use vstd::multiset::Multiset;

verus! {

/// `x` inserted into `s` just before the first element it goes before (after
/// every element it does not go before), which keeps equal elements in their
/// original order.
pub open spec fn insert_by<T>(s: Seq<T>, x: T, before: spec_fn(T, T) -> bool) -> Seq<T>
    decreases s.len(),
{
    if s.len() == 0 {
        seq![x]
    } else if before(x, s[0]) {
        seq![x] + s
    } else {
        seq![s[0]] + insert_by(s.drop_first(), x, before)
    }
}

/// The stable sort of `s` by `before`: each element in turn inserted into the
/// sorted earlier ones.
pub open spec fn sort_by<T>(s: Seq<T>, before: spec_fn(T, T) -> bool) -> Seq<T>
    decreases s.len(),
{
    if s.len() == 0 {
        s
    } else {
        insert_by(sort_by(s.drop_last(), before), s.last(), before)
    }
}

/// Insertion lands at the first element `x` goes before.
pub proof fn lemma_insert_by_at<T>(s: Seq<T>, x: T, before: spec_fn(T, T) -> bool, j: int)
    requires
        0 <= j <= s.len(),
        forall|i: int| 0 <= i < j ==> !before(x, #[trigger] s[i]),
        j == s.len() || before(x, s[j]),
    ensures
        insert_by(s, x, before) == s.insert(j, x),
    decreases j,
{
    if s.len() == 0 {
        assert(s.insert(j, x) =~= seq![x]);
    } else if j == 0 {
        assert(s.insert(0, x) =~= seq![x] + s);
    } else {
        assert(!before(x, s[0]));
        let t = s.drop_first();
        assert forall|i: int| 0 <= i < j - 1 implies !before(x, #[trigger] t[i]) by {
            assert(t[i] == s[i + 1]);
        }
        if j < s.len() {
            assert(t[j - 1] == s[j]);
        }
        lemma_insert_by_at(t, x, before, j - 1);
        assert(seq![s[0]] + t.insert(j - 1, x) =~= s.insert(j, x));
    }
}

/// The sort of a one-element longer prefix inserts its last element.
pub proof fn lemma_sort_by_step<T>(s: Seq<T>, i: int, before: spec_fn(T, T) -> bool)
    requires
        0 <= i < s.len(),
    ensures
        sort_by(s.take(i + 1), before) == insert_by(sort_by(s.take(i), before), s[i], before),
{
    assert(s.take(i + 1).drop_last() == s.take(i));
    assert(s.take(i + 1).last() == s[i]);
}


/// No element goes before an earlier one.
pub open spec fn sorted_by<T>(s: Seq<T>, before: spec_fn(T, T) -> bool) -> bool {
    forall|i: int, j: int| 0 <= i < j < s.len() ==> !before(#[trigger] s[j], #[trigger] s[i])
}

/// `before` is a strict order: irreflexive and transitive.
pub open spec fn strict_order<T>(before: spec_fn(T, T) -> bool) -> bool {
    &&& forall|a: T| !#[trigger] before(a, a)
    &&& forall|a: T, b: T, c: T| #[trigger] before(a, b) && #[trigger] before(b, c) ==> before(a, c)
}

/// Insertion adds exactly `x`.
pub proof fn lemma_insert_by_multiset<T>(s: Seq<T>, x: T, before: spec_fn(T, T) -> bool)
    ensures
        insert_by(s, x, before).to_multiset() == s.to_multiset().insert(x),
        insert_by(s, x, before).len() == s.len() + 1,
        forall|i: int| 0 <= i < insert_by(s, x, before).len() ==> #[trigger] insert_by(s, x, before)[i] == x
            || s.contains(insert_by(s, x, before)[i]),
    decreases s.len(),
{
    broadcast use vstd::multiset::group_multiset_axioms;
    broadcast use vstd::seq_lib::lemma_multiset_commutative;
    broadcast use vstd::seq_lib::to_multiset_build;

    let r = insert_by(s, x, before);
    if s.len() == 0 {
        assert(seq![x] =~= Seq::<T>::empty().push(x));
        assert(s =~= Seq::<T>::empty());
    } else if before(x, s[0]) {
        assert(seq![x] =~= Seq::<T>::empty().push(x));
        assert(Seq::<T>::empty().to_multiset() =~= Multiset::<T>::empty()) by {
            broadcast use vstd::seq_lib::to_multiset_len;
            vstd::multiset::lemma_multiset_empty_len(Seq::<T>::empty().to_multiset());
        }
        assert(seq![x].to_multiset() =~= Multiset::<T>::empty().insert(x));
        assert((seq![x] + s).to_multiset() =~= seq![x].to_multiset().add(s.to_multiset()));
        assert(r.to_multiset() =~= s.to_multiset().insert(x));
        assert forall|i: int| 0 <= i < r.len() implies #[trigger] r[i] == x || s.contains(r[i]) by {
            if i > 0 {
                assert(r[i] == s[i - 1]);
            }
        }
    } else {
        let t = s.drop_first();
        lemma_insert_by_multiset(t, x, before);
        let u = insert_by(t, x, before);
        assert(seq![s[0]] =~= Seq::<T>::empty().push(s[0]));
        assert(s =~= seq![s[0]] + t);
        assert((seq![s[0]] + u).to_multiset() =~= seq![s[0]].to_multiset().add(u.to_multiset()));
        assert((seq![s[0]] + t).to_multiset() =~= seq![s[0]].to_multiset().add(t.to_multiset()));
        assert(r.to_multiset() =~= s.to_multiset().insert(x));
        assert forall|i: int| 0 <= i < r.len() implies #[trigger] r[i] == x || s.contains(r[i]) by {
            if i == 0 {
                assert(s[0] == r[0]);
            } else {
                assert(r[i] == u[i - 1]);
                if u[i - 1] != x {
                    let k = choose|k: int| 0 <= k < t.len() && t[k] == u[i - 1];
                    assert(s[k + 1] == t[k]);
                }
            }
        }
    }
}

/// Sorting keeps exactly the elements.
pub proof fn lemma_sort_by_multiset<T>(s: Seq<T>, before: spec_fn(T, T) -> bool)
    ensures
        sort_by(s, before).to_multiset() == s.to_multiset(),
        sort_by(s, before).len() == s.len(),
    decreases s.len(),
{
    broadcast use vstd::seq_lib::to_multiset_build;

    if s.len() > 0 {
        lemma_sort_by_multiset(s.drop_last(), before);
        lemma_insert_by_multiset(sort_by(s.drop_last(), before), s.last(), before);
        assert(s.drop_last().push(s.last()) =~= s);
    }
}

/// Insertion into a sorted sequence keeps it sorted.
pub proof fn lemma_insert_by_sorted<T>(s: Seq<T>, x: T, before: spec_fn(T, T) -> bool)
    requires
        strict_order(before),
        sorted_by(s, before),
    ensures
        sorted_by(insert_by(s, x, before), before),
    decreases s.len(),
{
    let r = insert_by(s, x, before);
    if s.len() == 0 {
    } else if before(x, s[0]) {
        assert forall|i: int, j: int| 0 <= i < j < r.len() implies !before(#[trigger] r[j], #[trigger] r[i]) by {
            if i == 0 {
                assert(r[j] == s[j - 1]);
                if before(s[j - 1], x) {
                    assert(before(s[j - 1], s[0]));
                    if j - 1 > 0 {
                        assert(!before(s[j - 1], s[0]));
                    }
                }
            } else {
                assert(r[i] == s[i - 1]);
                assert(r[j] == s[j - 1]);
            }
        }
    } else {
        let t = s.drop_first();
        assert(sorted_by(t, before)) by {
            assert forall|i: int, j: int| 0 <= i < j < t.len() implies !before(#[trigger] t[j], #[trigger] t[i]) by {
                assert(t[i] == s[i + 1]);
                assert(t[j] == s[j + 1]);
            }
        }
        lemma_insert_by_sorted(t, x, before);
        lemma_insert_by_multiset(t, x, before);
        let u = insert_by(t, x, before);
        assert forall|i: int, j: int| 0 <= i < j < r.len() implies !before(#[trigger] r[j], #[trigger] r[i]) by {
            assert(r[j] == u[j - 1]);
            if i == 0 {
                assert(r[0] == s[0]);
                if u[j - 1] != x {
                    let k = choose|k: int| 0 <= k < t.len() && t[k] == u[j - 1];
                    assert(s[k + 1] == t[k]);
                }
            } else {
                assert(r[i] == u[i - 1]);
            }
        }
    }
}

/// Law: the stable sort of any sequence by a strict order is sorted and holds
/// exactly the same elements.
pub proof fn law_sort_by_sorted<T>(s: Seq<T>, before: spec_fn(T, T) -> bool)
    requires
        strict_order(before),
    ensures
        sorted_by(sort_by(s, before), before),
        sort_by(s, before).to_multiset() == s.to_multiset(),
    decreases s.len(),
{
    lemma_sort_by_multiset(s, before);
    if s.len() > 0 {
        law_sort_by_sorted(s.drop_last(), before);
        lemma_insert_by_sorted(sort_by(s.drop_last(), before), s.last(), before);
    }
}

} // verus!
