//! What a compaction pass leaves behind, stated over sequences.
//!
//! A pass walks the live range once, from the front. Each element is judged
//! once; the elements that stay keep their order and close up to the front.

use vstd::prelude::*;
use vstd::std_specs::cmp::PartialEqSpec;

verus! {

/// The elements of `s` whose mark in `keep` is `true`, in the order in which
/// they stand in `s`.
pub open spec fn select<T>(s: Seq<T>, keep: Seq<bool>) -> Seq<T>
    decreases s.len(),
{
    if s.len() == 0 || keep.len() != s.len() {
        Seq::empty()
    } else if keep.last() {
        select(s.drop_last(), keep.drop_last()).push(s.last())
    } else {
        select(s.drop_last(), keep.drop_last())
    }
}

/// Judging one more element extends the selection by it, or not at all.
pub proof fn lemma_select_push<T>(s: Seq<T>, keep: Seq<bool>, x: T, mark: bool)
    requires
        s.len() == keep.len(),
    ensures
        select(s.push(x), keep.push(mark)) == if mark {
            select(s, keep).push(x)
        } else {
            select(s, keep)
        },
{
    assert(s.push(x).drop_last() =~= s);
    assert(keep.push(mark).drop_last() =~= keep);
}

/// What `retain` may leave of `before` under the predicate `f`: for some
/// run of answers of `f`, one for each element, the elements for which the
/// answer was `true`.
pub open spec fn retained<T, F: FnMut(&T) -> bool>(f: F, before: Seq<T>, after: Seq<T>) -> bool {
    exists|keep: Seq<bool>|
        {
            &&& keep.len() == before.len()
            &&& forall|i: int|
                0 <= i < before.len() ==> call_ensures(f, (&before[i],), #[trigger] keep[i])
            &&& after == select(before, keep)
        }
}

/// What is left of `s` when each element `x` is kept exactly if `keep(x)`
/// and is left as `then(x)`: the kept elements in their order, as left.
pub open spec fn kept<T>(s: Seq<T>, keep: spec_fn(T) -> bool, then: spec_fn(T) -> T) -> Seq<T>
    decreases s.len(),
{
    if s.len() == 0 {
        Seq::empty()
    } else if keep(s.last()) {
        kept(s.drop_last(), keep, then).push(then(s.last()))
    } else {
        kept(s.drop_last(), keep, then)
    }
}

/// What is left of `s` when runs of consecutive duplicates collapse.
///
/// Each element after the first is compared once with the last element
/// that was kept. On the pair `(x, p)` of an element and the last kept one,
/// `dup(x, p)` says whether `x` is dropped, `cur_then(x, p)` is what the
/// comparison leaves of `x` and `prev_then(x, p)` what it leaves of `p`.
pub open spec fn deduped<T>(
    s: Seq<T>,
    dup: spec_fn(T, T) -> bool,
    cur_then: spec_fn(T, T) -> T,
    prev_then: spec_fn(T, T) -> T,
) -> Seq<T>
    decreases s.len(),
{
    if s.len() <= 1 {
        s
    } else {
        let earlier = deduped(s.drop_last(), dup, cur_then, prev_then);
        let x = s.last();
        let p = earlier.last();
        let settled = earlier.drop_last().push(prev_then(x, p));
        if dup(x, p) {
            settled
        } else {
            settled.push(cur_then(x, p))
        }
    }
}

/// What is left of `s` when runs of consecutive elements with equal keys
/// collapse.
///
/// Each element after the first is compared once with the last element
/// that was kept: the key of the element is taken, then the key of the
/// kept one, and the element is dropped if the two are equal. `key_of(x)`
/// is the key of `x`, and `then(x)` is what taking the key leaves of `x`.
pub open spec fn deduped_by_key<T, K: PartialEq>(
    s: Seq<T>,
    key_of: spec_fn(T) -> K,
    then: spec_fn(T) -> T,
) -> Seq<T>
    decreases s.len(),
{
    if s.len() <= 1 {
        s
    } else {
        let earlier = deduped_by_key(s.drop_last(), key_of, then);
        let x = s.last();
        let p = earlier.last();
        let settled = earlier.drop_last().push(then(p));
        if key_of(x).eq_spec(&key_of(p)) {
            settled
        } else {
            settled.push(then(x))
        }
    }
}

/// One comparison of a pass that collapses duplicates: what it left of the
/// element and of the last kept element, and whether it called the element
/// a duplicate.
pub struct Comparison<T> {
    /// The element, as the comparison left it.
    pub cur: T,
    /// The last kept element, as the comparison left it.
    pub prev: T,
    /// Whether the element was called a duplicate.
    pub dup: bool,
}

/// What a run of comparisons leaves, starting from the first element: each
/// comparison puts back the last kept element as it left it, and keeps the
/// element behind it unless it called it a duplicate.
pub open spec fn collapsed<T>(first: T, run: Seq<Comparison<T>>) -> Seq<T>
    decreases run.len(),
{
    if run.len() == 0 {
        seq![first]
    } else {
        let earlier = collapsed(first, run.drop_last());
        let settled = earlier.drop_last().push(run.last().prev);
        if run.last().dup {
            settled
        } else {
            settled.push(run.last().cur)
        }
    }
}

} // verus!
