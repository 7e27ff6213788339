use vstd::prelude::*;
use vstd::relations::{sorted_by, strongly_connected, transitive};

verus! {

/// An order in which any two values are comparable and comparisons chain.
/// Distinct values may rank the same.
pub open spec fn total_preorder<T>(le: spec_fn(T, T) -> bool) -> bool {
    strongly_connected(le) && transitive(le)
}

/// Where a new value `x` goes in `s`: right behind the last element that does
/// not rank after it, or at the front when there is no such element.
pub open spec fn insertion_point<T>(s: Seq<T>, x: T, le: spec_fn(T, T) -> bool) -> int
    decreases s.len(),
{
    if s.len() == 0 {
        0
    } else if le(s.last(), x) {
        s.len() as int
    } else {
        insertion_point(s.drop_last(), x, le)
    }
}

/// `s` with `x` put in at its insertion point.
pub open spec fn stable_insert<T>(s: Seq<T>, x: T, le: spec_fn(T, T) -> bool) -> Seq<T> {
    s.insert(insertion_point(s, x, le), x)
}

/// The elements of `s` in ascending order, elements of equal rank in the
/// order in which they stand in `s`.
pub open spec fn stable_sort<T>(s: Seq<T>, le: spec_fn(T, T) -> bool) -> Seq<T>
    decreases s.len(),
{
    if s.len() == 0 {
        s
    } else {
        stable_insert(stable_sort(s.drop_last(), le), s.last(), le)
    }
}

/// The insertion point lies within the sequence, directly behind an element
/// that does not rank after `x`, and every element from it on ranks after `x`.
pub proof fn lemma_insertion_point<T>(s: Seq<T>, x: T, le: spec_fn(T, T) -> bool)
    ensures
        0 <= insertion_point(s, x, le) <= s.len(),
        insertion_point(s, x, le) > 0 ==> le(s[insertion_point(s, x, le) - 1], x),
        forall|i: int| insertion_point(s, x, le) <= i < s.len() ==> !le(#[trigger] s[i], x),
    decreases s.len(),
{
    if s.len() > 0 && !le(s.last(), x) {
        let t = s.drop_last();
        lemma_insertion_point(t, x, le);
        assert forall|i: int| insertion_point(s, x, le) <= i < s.len() implies !le(
            #[trigger] s[i],
            x,
        ) by {
            if i < t.len() {
                assert(s[i] == t[i]);
            }
        }
    }
}

/// Inserting into a sorted sequence keeps it sorted.
pub proof fn lemma_stable_insert_sorted<T>(s: Seq<T>, x: T, le: spec_fn(T, T) -> bool)
    requires
        total_preorder(le),
        sorted_by(s, le),
    ensures
        sorted_by(stable_insert(s, x, le), le),
{
    let p = insertion_point(s, x, le);
    let r = stable_insert(s, x, le);
    lemma_insertion_point(s, x, le);
    assert forall|i: int, j: int| 0 <= i < j < r.len() implies #[trigger] le(r[i], r[j]) by {
        if j < p {
            assert(r[i] == s[i] && r[j] == s[j]);
        } else if j == p {
            assert(r[j] == x);
            assert(r[i] == s[i]);
            if i < p - 1 {
                assert(le(s[i], s[p - 1]));
            }
            assert(le(s[p - 1], x));
        } else if i == p {
            assert(r[i] == x);
            assert(r[j] == s[j - 1]);
            assert(!le(s[j - 1], x));
        } else if i < p {
            assert(r[i] == s[i] && r[j] == s[j - 1]);
        } else {
            assert(r[i] == s[i - 1] && r[j] == s[j - 1]);
        }
    }
}

/// Inserting adds exactly one occurrence of the new value.
pub proof fn lemma_stable_insert_permutes<T>(s: Seq<T>, x: T, le: spec_fn(T, T) -> bool)
    ensures
        stable_insert(s, x, le).len() == s.len() + 1,
        stable_insert(s, x, le).to_multiset() == s.to_multiset().insert(x),
{
    lemma_insertion_point(s, x, le);
    vstd::seq_lib::to_multiset_insert(s, insertion_point(s, x, le), x);
}

/// Sorting yields a sorted sequence with the same elements, each as often
/// as before.
pub proof fn lemma_stable_sort<T>(s: Seq<T>, le: spec_fn(T, T) -> bool)
    requires
        total_preorder(le),
    ensures
        sorted_by(stable_sort(s, le), le),
        stable_sort(s, le).len() == s.len(),
        stable_sort(s, le).to_multiset() == s.to_multiset(),
    decreases s.len(),
{
    if s.len() > 0 {
        let t = s.drop_last();
        lemma_stable_sort(t, le);
        lemma_stable_insert_sorted(stable_sort(t, le), s.last(), le);
        lemma_stable_insert_permutes(stable_sort(t, le), s.last(), le);
        assert(s == t.push(s.last()));
        vstd::seq_lib::to_multiset_build(t, s.last());
    }
}

/// Sorting neither adds nor loses a value.
pub proof fn lemma_stable_sort_contains<T>(s: Seq<T>, le: spec_fn(T, T) -> bool, x: T)
    requires
        total_preorder(le),
    ensures
        stable_sort(s, le).contains(x) == s.contains(x),
{
    lemma_stable_sort(s, le);
    vstd::seq_lib::to_multiset_contains(stable_sort(s, le), x);
    vstd::seq_lib::to_multiset_contains(s, x);
}

/// The values that rank the same as `x`.
pub open spec fn same_rank<T>(x: T, le: spec_fn(T, T) -> bool) -> spec_fn(T) -> bool {
    |y: T| le(x, y) && le(y, x)
}

/// Sorting is stable: the elements of any one rank come out in the order in
/// which they went in.
pub proof fn lemma_stable_sort_keeps_order<T>(s: Seq<T>, le: spec_fn(T, T) -> bool, x: T)
    requires
        total_preorder(le),
    ensures
        stable_sort(s, le).filter(same_rank(x, le)) == s.filter(same_rank(x, le)),
    decreases s.len(),
{
    reveal_with_fuel(Seq::filter, 2);
    if s.len() > 0 {
        let rest = s.drop_last();
        let last = s.last();
        let sorted = stable_sort(rest, le);
        let wanted = same_rank(x, le);
        lemma_stable_sort_keeps_order(rest, le, x);
        lemma_insertion_point(sorted, last, le);
        let at = insertion_point(sorted, last, le);
        let head = sorted.subrange(0, at);
        let tail = sorted.subrange(at, sorted.len() as int);
        assert(sorted =~= head + tail);
        assert(stable_insert(sorted, last, le) =~= (head + seq![last]) + tail);
        Seq::filter_distributes_over_add(head, tail, wanted);
        Seq::filter_distributes_over_add(head + seq![last], tail, wanted);
        Seq::filter_distributes_over_add(head, seq![last], wanted);
        assert(seq![last].drop_last() =~= Seq::<T>::empty());
        if wanted(last) {
            assert forall|i: int| 0 <= i < tail.len() implies !wanted(#[trigger] tail[i]) by {
                assert(tail[i] == sorted[at + i]);
                assert(!le(sorted[at + i], last));
            }
            tail.lemma_all_neg_filter_empty(wanted);
            assert(seq![last].filter(wanted) =~= seq![last]);
            assert(head.filter(wanted) + seq![last] + tail.filter(wanted) =~= (head.filter(wanted)
                + tail.filter(wanted)).push(last));
        } else {
            assert(seq![last].filter(wanted) =~= Seq::<T>::empty());
            assert(head.filter(wanted) + Seq::<T>::empty() + tail.filter(wanted) =~= head.filter(
                wanted,
            ) + tail.filter(wanted));
        }
    }
}

/// Sorting leaves a sorted sequence as it is.
pub proof fn lemma_stable_sort_of_sorted<T>(s: Seq<T>, le: spec_fn(T, T) -> bool)
    requires
        sorted_by(s, le),
    ensures
        stable_sort(s, le) == s,
    decreases s.len(),
{
    if s.len() > 0 {
        let t = s.drop_last();
        assert(sorted_by(t, le)) by {
            assert forall|i: int, j: int| 0 <= i < j < t.len() implies #[trigger] le(t[i], t[j]) by {
                assert(t[i] == s[i] && t[j] == s[j]);
            }
        }
        lemma_stable_sort_of_sorted(t, le);
        if t.len() > 0 {
            assert(le(s[t.len() - 1], s[s.len() - 1]));
            assert(t.last() == s[t.len() - 1]);
        }
        assert(insertion_point(t, s.last(), le) == t.len());
        assert(t.insert(t.len() as int, s.last()) =~= s);
    }
}

/// In a sorted sequence, appending a value and sorting again is one insertion.
pub proof fn lemma_push_then_sort<T>(s: Seq<T>, x: T, le: spec_fn(T, T) -> bool)
    requires
        sorted_by(s, le),
    ensures
        stable_sort(s.push(x), le) == stable_insert(s, x, le),
{
    lemma_stable_sort_of_sorted(s, le);
    assert(s.push(x).drop_last() =~= s);
}

} // verus!
