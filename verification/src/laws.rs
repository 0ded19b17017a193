//! Laws of the list, proved over the sequence view that the operation
//! contracts in [`crate::list`] are stated against.

use vstd::prelude::*;
use vstd::seq_lib::lemma_multiset_commutative;

verus! {

/// The view after a run of push calls, applied front to back.
///
/// Each call is a pair `(at_back, value)`: `push_back(value)` takes the view
/// `m` to `m.push(value)` and `push_front(value)` takes it to
/// `seq![value] + m`, exactly as the two operations' contracts state.
pub open spec fn apply_pushes<T>(start: Seq<T>, calls: Seq<(bool, T)>) -> Seq<T>
    decreases calls.len(),
{
    if calls.len() == 0 {
        start
    } else {
        apply_pushes(
            if calls[0].0 {
                start.push(calls[0].1)
            } else {
                seq![calls[0].1] + start
            },
            calls.drop_first(),
        )
    }
}

/// Every push call, at either end, grows the view by exactly one element.
pub proof fn lemma_pushes_grow_one_by_one<T>(start: Seq<T>, calls: Seq<(bool, T)>)
    ensures
        apply_pushes(start, calls).len() == start.len() + calls.len(),
    decreases calls.len(),
{
    if calls.len() > 0 {
        if calls[0].0 {
            lemma_pushes_grow_one_by_one(start.push(calls[0].1), calls.drop_first());
        } else {
            lemma_pushes_grow_one_by_one(seq![calls[0].1] + start, calls.drop_first());
        }
    }
}

/// After any run of push calls on an empty list, `len()` reports the number
/// of calls, and `is_empty()` reports true exactly when no call was made:
/// `len()` returns the view's length and `is_empty()` compares it with zero.
pub proof fn lemma_push_count_is_len<T>(calls: Seq<(bool, T)>)
    ensures
        apply_pushes(Seq::<T>::empty(), calls).len() == calls.len(),
        apply_pushes(Seq::<T>::empty(), calls).len() == 0 <==> calls.len() == 0,
{
    lemma_pushes_grow_one_by_one(Seq::<T>::empty(), calls);
}

/// After `push_front(a)` then `push_front(b)` on an empty list — whose view
/// is then `seq![b] + (seq![a] + Seq::empty())` by push_front's contract —
/// `pop_tail` returns the view's first element, `b`, and `pop_head` returns
/// its last element, `a`: the two pop operations work from opposite ends,
/// swapped relative to their names.
pub proof fn lemma_pop_orientation<T>(a: T, b: T)
    ensures
        (seq![b] + (seq![a] + Seq::<T>::empty())).first() == b,
        (seq![b] + (seq![a] + Seq::<T>::empty())).last() == a,
{
}

/// A value is contained in a view exactly when at least one occurrence of it
/// remains, duplicates counted by the view's multiset.
pub proof fn lemma_contains_iff_occurrence_remains<T>(m: Seq<T>)
    ensures
        forall|x: T| m.contains(x) <==> m.to_multiset().count(x) > 0,
{
    m.to_multiset_ensures();
}

/// `insert_at` adds one occurrence of the inserted value to the view's
/// multiset and disturbs no other value.
pub proof fn lemma_insert_at_adds_one_occurrence<T>(m: Seq<T>, i: int, v: T)
    requires
        0 <= i <= m.len(),
    ensures
        m.insert(i, v).to_multiset() == m.to_multiset().insert(v),
{
    let front = m.subrange(0, i);
    let back = m.subrange(i, m.len() as int);
    assert(m.insert(i, v) == front.push(v) + back);
    assert(m =~= front + back);
    lemma_multiset_commutative(front.push(v), back);
    lemma_multiset_commutative(front, back);
    front.to_multiset_ensures();
    assert(m.insert(i, v).to_multiset() =~= m.to_multiset().insert(v));
}

/// `remove_at` removes exactly one occurrence of the removed value from the
/// view's multiset and disturbs no other value.
pub proof fn lemma_remove_at_drops_one_occurrence<T>(m: Seq<T>, i: int)
    requires
        0 <= i < m.len(),
    ensures
        m.remove(i).to_multiset() == m.to_multiset().remove(m[i]),
{
    m.to_multiset_ensures();
    assert(m.remove(i).to_multiset() =~= m.to_multiset().remove(m[i]));
}

/// Round trip: inserting `v` at any valid position `i` and then removing at
/// `i` removes exactly the inserted value and restores the view, so the
/// length is unchanged from before the insert.
pub proof fn lemma_insert_then_remove_round_trip<T>(m: Seq<T>, i: int, v: T)
    requires
        0 <= i <= m.len(),
    ensures
        m.insert(i, v)[i] == v,
        m.insert(i, v).len() == m.len() + 1,
        m.insert(i, v).remove(i) == m,
{
    m.insert_ensures(i, v);
    m.insert(i, v).remove_ensures(i);
    assert(m.insert(i, v).remove(i) =~= m);
}

} // verus!
