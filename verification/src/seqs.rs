//! Facts about filtering sequences that the directories share.

use vstd::prelude::*;

verus! {

/// Filtering by a predicate that every element meets changes nothing.
pub proof fn lemma_filter_keeps_all<A>(s: Seq<A>, pred: spec_fn(A) -> bool)
    requires
        forall|j: int| 0 <= j < s.len() ==> pred(#[trigger] s[j]),
    ensures
        s.filter(pred) == s,
    decreases s.len(),
{
    reveal(Seq::filter);
    if s.len() > 0 {
        lemma_filter_keeps_all(s.drop_last(), pred);
        assert(s.drop_last().push(s.last()) =~= s);
    }
}

/// Filtering by a predicate that exactly one element fails removes that
/// element and keeps the others in place.
pub proof fn lemma_filter_removes_one<A>(s: Seq<A>, pred: spec_fn(A) -> bool, i: int)
    requires
        0 <= i < s.len(),
        !pred(s[i]),
        forall|j: int| 0 <= j < s.len() && j != i ==> pred(#[trigger] s[j]),
    ensures
        s.filter(pred) == s.remove(i),
    decreases s.len(),
{
    reveal(Seq::filter);
    let front = s.drop_last();
    if i == s.len() - 1 {
        lemma_filter_keeps_all(front, pred);
        assert(s.remove(i) =~= front);
    } else {
        lemma_filter_removes_one(front, pred, i);
        assert(front.remove(i).push(s.last()) =~= s.remove(i));
    }
}

/// An element of a filtered sequence is an element of the sequence, and
/// the order of the elements is kept: the filtered sequence is the image
/// of a strictly increasing choice of positions.
pub proof fn lemma_filter_positions<A>(s: Seq<A>, pred: spec_fn(A) -> bool) -> (at: Seq<int>)
    ensures
        at.len() == s.filter(pred).len(),
        forall|k: int| 0 <= k < at.len() ==> 0 <= #[trigger] at[k] < s.len(),
        forall|k: int| 0 <= k < at.len() ==> s.filter(pred)[k] == s[#[trigger] at[k]],
        forall|k: int, l: int| 0 <= k < l < at.len() ==> #[trigger] at[k] < #[trigger] at[l],
    decreases s.len(),
{
    reveal(Seq::filter);
    if s.len() == 0 {
        Seq::empty()
    } else {
        let front = lemma_filter_positions(s.drop_last(), pred);
        if pred(s.last()) {
            front.push(s.len() - 1)
        } else {
            front
        }
    }
}

/// An element is in the filtered sequence exactly if it is in the sequence
/// and meets the predicate.
pub proof fn lemma_filter_membership<A>(s: Seq<A>, pred: spec_fn(A) -> bool, x: A)
    ensures
        s.filter(pred).contains(x) <==> s.contains(x) && pred(x),
    decreases s.len(),
{
    reveal(Seq::filter);
    if s.len() > 0 {
        let front = s.drop_last();
        lemma_filter_membership(front, pred, x);
        if s.contains(x) {
            let i = choose|i: int| 0 <= i < s.len() && s[i] == x;
            if i < s.len() - 1 {
                assert(front[i] == x);
            }
        }
        if front.contains(x) {
            let i = choose|i: int| 0 <= i < front.len() && front[i] == x;
            assert(s[i] == x);
        }
        let kept = front.filter(pred);
        if pred(s.last()) {
            let all = kept.push(s.last());
            if kept.contains(x) {
                let i = choose|i: int| 0 <= i < kept.len() && kept[i] == x;
                assert(all[i] == x);
            }
            if x == s.last() {
                assert(all[kept.len() as int] == x);
                assert(s[s.len() - 1] == x);
            }
            if all.contains(x) {
                let i = choose|i: int| 0 <= i < all.len() && all[i] == x;
                if i < kept.len() {
                    assert(kept[i] == x);
                }
            }
        }
    }
}

} // verus!
