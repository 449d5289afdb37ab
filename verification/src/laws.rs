//! What holds of the operations taken together, stated over the sequences
//! that their contracts speak of.

use crate::compaction::{
    collapsed, deduped, deduped_by_key, kept, retained, select, Comparison,
};
use crate::storage::Model;
use vstd::prelude::*;
use vstd::std_specs::cmp::PartialEqSpec;

verus! {

/// In a well-formed container the length is at most the capacity, and the
/// live elements are exactly as many as the length says.
pub proof fn lemma_live_range<T>(m: Model<T>)
    requires
        m.wf(),
    ensures
        0 <= m.len <= m.capacity(),
        m@.len() == m.len,
        forall|i: int| 0 <= i < m.len ==> m.slots[i] == Some(#[trigger] m@[i]),
{
}

/// `push(v)` followed by `pop()` gives back `v` and leaves the elements as
/// they were before the `push`.
pub proof fn lemma_push_then_pop<T>(s: Seq<T>, v: T)
    ensures
        s.push(v).len() > 0,
        s.push(v).last() == v,
        s.push(v).drop_last() == s,
{
    assert(s.push(v).drop_last() =~= s);
}

/// `insert(i, v)` followed by `remove(i)` gives back `v` and leaves the
/// elements, and so the length, as they were before the `insert`.
pub proof fn lemma_insert_then_remove<T>(s: Seq<T>, i: int, v: T)
    requires
        0 <= i <= s.len(),
    ensures
        i < s.insert(i, v).len(),
        s.insert(i, v)[i] == v,
        s.insert(i, v).remove(i) == s,
        s.insert(i, v).remove(i).len() == s.len(),
{
    assert(s.insert(i, v).remove(i) =~= s);
}

/// After `swap_remove(k)` on `n` elements there are `n - 1`; where `k` was
/// not the last position, the element that was last stands at `k`, and the
/// elements at the other positions stay where they were.
pub proof fn lemma_swap_remove<T>(s: Seq<T>, k: int)
    requires
        0 <= k < s.len(),
    ensures
        s.update(k, s.last()).drop_last().len() == s.len() - 1,
        k < s.len() - 1 ==> s.update(k, s.last()).drop_last()[k] == s[s.len() - 1],
        forall|j: int|
            0 <= j < s.len() - 1 && j != k ==> #[trigger] s.update(k, s.last()).drop_last()[j]
                == s[j],
{
}

/// Selecting by the answers of a predicate is filtering by it: the elements
/// that satisfy `p`, in their order, as many as satisfy it.
pub proof fn lemma_select_is_filter<T>(s: Seq<T>, keep: Seq<bool>, p: spec_fn(T) -> bool)
    requires
        keep.len() == s.len(),
        forall|i: int| 0 <= i < s.len() ==> keep[i] == p(s[i]),
    ensures
        select(s, keep) == s.filter(p),
    decreases s.len(),
{
    reveal(Seq::filter);
    if s.len() > 0 {
        lemma_select_is_filter(s.drop_last(), keep.drop_last(), p);
    }
}

/// The elements that a selection keeps stand in the order in which they
/// stood before: each kept element comes from a position of its own, and
/// these positions grow from one kept element to the next.
pub proof fn lemma_select_keeps_order<T>(s: Seq<T>, keep: Seq<bool>) -> (from: Seq<int>)
    requires
        keep.len() == s.len(),
    ensures
        from.len() == select(s, keep).len(),
        forall|j: int|
            0 <= j < from.len() ==> 0 <= #[trigger] from[j] < s.len() && keep[from[j]] && select(
                s,
                keep,
            )[j] == s[from[j]],
        forall|j: int, k: int| 0 <= j < k < from.len() ==> from[j] < from[k],
        forall|i: int|
            0 <= i < s.len() && keep[i] ==> exists|j: int| 0 <= j < from.len() && from[j] == i,
    decreases s.len(),
{
    if s.len() == 0 {
        Seq::empty()
    } else {
        let earlier = lemma_select_keeps_order(s.drop_last(), keep.drop_last());
        let last = s.len() - 1;
        if keep.last() {
            let from = earlier.push(last);
            assert forall|i: int| 0 <= i < s.len() && keep[i] implies exists|j: int|
                0 <= j < from.len() && from[j] == i by {
                if i < last {
                    assert(keep.drop_last()[i]);
                    let j = choose|j: int| 0 <= j < earlier.len() && earlier[j] == i;
                    assert(from[j] == i);
                } else {
                    assert(from[earlier.len() as int] == i);
                }
            }
            from
        } else {
            assert forall|i: int| 0 <= i < s.len() && keep[i] implies exists|j: int|
                0 <= j < earlier.len() && earlier[j] == i by {
                assert(keep.drop_last()[i]);
            }
            earlier
        }
    }
}

/// `retain(f)` with a predicate that answers `p(x)` on every element `x`
/// leaves the elements that satisfy `p`, in their order; the length is the
/// number of elements that satisfy `p`.
pub proof fn lemma_retain_is_filter<T, F: FnMut(&T) -> bool>(
    f: F,
    p: spec_fn(T) -> bool,
    before: Seq<T>,
    after: Seq<T>,
)
    requires
        retained(f, before, after),
        forall|x: T, k: bool| call_ensures(f, (&x,), k) ==> k == p(x),
    ensures
        after == before.filter(p),
        after.len() == before.filter(p).len(),
{
    let keep = choose|keep: Seq<bool>|
        {
            &&& keep.len() == before.len()
            &&& forall|i: int|
                0 <= i < before.len() ==> call_ensures(f, (&before[i],), #[trigger] keep[i])
            &&& after == select(before, keep)
        };
    assert forall|i: int| 0 <= i < before.len() implies keep[i] == p(before[i]) by {
        assert(call_ensures(f, (&before[i],), keep[i]));
    }
    lemma_select_is_filter(before, keep, p);
}

/// `retain_mut(f)` with an `f` that changes no element and answers `p(x)`
/// on every element `x` leaves the elements that satisfy `p`, in their
/// order.
pub proof fn lemma_kept_unchanged_is_filter<T>(s: Seq<T>, p: spec_fn(T) -> bool)
    ensures
        kept(s, p, |x: T| x) == s.filter(p),
    decreases s.len(),
{
    reveal(Seq::filter);
    if s.len() > 0 {
        lemma_kept_unchanged_is_filter(s.drop_last(), p);
    }
}

/// After `append` the receiver holds its elements and then those of the
/// other container, in their order; its length is the sum of both lengths.
pub proof fn lemma_append<T>(a: Seq<T>, b: Seq<T>)
    ensures
        (a + b).len() == a.len() + b.len(),
        forall|i: int| 0 <= i < a.len() ==> #[trigger] (a + b)[i] == a[i],
        forall|i: int| 0 <= i < b.len() ==> #[trigger] (a + b)[a.len() + i] == b[i],
{
}

/// A run of comparisons always leaves the first element in place, and at
/// most one more element for each comparison.
pub proof fn lemma_collapsed_len<T>(first: T, run: Seq<Comparison<T>>)
    ensures
        1 <= collapsed(first, run).len() <= run.len() + 1,
    decreases run.len(),
{
    if run.len() > 0 {
        lemma_collapsed_len(first, run.drop_last());
    }
}

/// `retain_mut(f)` with an `f` that answers `keep_fn(x)` on every element
/// `x` and leaves `then_fn(x)` in its place: whatever run of calls tells
/// what is left, it is the elements that satisfy `keep_fn`, in their order,
/// each as `then_fn` leaves it.
pub proof fn lemma_retain_mut_is_kept<T, F: FnMut(&mut T) -> bool>(
    f: F,
    before: Seq<T>,
    seen: Seq<T>,
    keep: Seq<bool>,
    keep_fn: spec_fn(T) -> bool,
    then_fn: spec_fn(T) -> T,
)
    requires
        seen.len() == before.len(),
        keep.len() == before.len(),
        forall|i: int|
            0 <= i < before.len() ==> if #[trigger] keep[i] {
                exists|e: &mut T|
                    *e == before[i] && *final(e) == seen[i] && call_ensures(f, (e,), true)
            } else {
                exists|e: &mut T|
                    *e == before[i] && *final(e) == seen[i] && call_ensures(f, (e,), false)
            },
        forall|e: &mut T, k: bool| #[trigger]
            call_ensures(f, (e,), k) ==> k == keep_fn(*e) && *final(e) == then_fn(*e),
    ensures
        select(seen, keep) == kept(before, keep_fn, then_fn),
    decreases before.len(),
{
    if before.len() > 0 {
        let n = before.len() - 1;
        assert(keep[n] == keep_fn(before[n]) && seen[n] == then_fn(before[n]));
        assert forall|i: int| 0 <= i < n implies if #[trigger] keep.drop_last()[i] {
            exists|e: &mut T|
                *e == before.drop_last()[i] && *final(e) == seen.drop_last()[i] && call_ensures(
                    f,
                    (e,),
                    true,
                )
        } else {
            exists|e: &mut T|
                *e == before.drop_last()[i] && *final(e) == seen.drop_last()[i] && call_ensures(
                    f,
                    (e,),
                    false,
                )
        } by {
            assert(keep[i] == keep.drop_last()[i]);
        }
        lemma_retain_mut_is_kept(
            f,
            before.drop_last(),
            seen.drop_last(),
            keep.drop_last(),
            keep_fn,
            then_fn,
        );
    }
}

/// `dedup_by(f)` with an `f` that, on an element `x` and the last kept
/// element `p`, answers `dup(x, p)` and leaves `cur_then(x, p)` and
/// `prev_then(x, p)` in their places: whatever run of comparisons tells
/// what is left, it is what `deduped` says.
pub proof fn lemma_dedup_by_is_deduped<T, F: FnMut(&mut T, &mut T) -> bool>(
    f: F,
    before: Seq<T>,
    run: Seq<Comparison<T>>,
    dup: spec_fn(T, T) -> bool,
    cur_then: spec_fn(T, T) -> T,
    prev_then: spec_fn(T, T) -> T,
)
    requires
        before.len() == run.len() + 1,
        forall|k: int|
            0 <= k < run.len() ==> if (#[trigger] run[k]).dup {
                exists|x: &mut T, p: &mut T|
                    *x == before[k + 1] && *p == collapsed(before[0], run.take(k)).last()
                        && *final(x) == run[k].cur && *final(p) == run[k].prev && call_ensures(
                        f,
                        (x, p),
                        true,
                    )
            } else {
                exists|x: &mut T, p: &mut T|
                    *x == before[k + 1] && *p == collapsed(before[0], run.take(k)).last()
                        && *final(x) == run[k].cur && *final(p) == run[k].prev && call_ensures(
                        f,
                        (x, p),
                        false,
                    )
            },
        forall|x: &mut T, p: &mut T, k: bool| #[trigger]
            call_ensures(f, (x, p), k) ==> k == dup(*x, *p) && *final(x) == cur_then(*x, *p)
                && *final(p) == prev_then(*x, *p),
    ensures
        collapsed(before[0], run) == deduped(before, dup, cur_then, prev_then),
    decreases run.len(),
{
    if run.len() > 0 {
        let n = run.len() - 1;
        let shorter = run.drop_last();
        assert(run.take(n) =~= shorter);
        assert forall|k: int| 0 <= k < shorter.len() implies if (#[trigger] shorter[k]).dup {
            exists|x: &mut T, p: &mut T|
                *x == before.drop_last()[k + 1] && *p == collapsed(
                    before.drop_last()[0],
                    shorter.take(k),
                ).last() && *final(x) == shorter[k].cur && *final(p) == shorter[k].prev
                    && call_ensures(f, (x, p), true)
        } else {
            exists|x: &mut T, p: &mut T|
                *x == before.drop_last()[k + 1] && *p == collapsed(
                    before.drop_last()[0],
                    shorter.take(k),
                ).last() && *final(x) == shorter[k].cur && *final(p) == shorter[k].prev
                    && call_ensures(f, (x, p), false)
        } by {
            assert(shorter[k] == run[k]);
            assert(shorter.take(k) =~= run.take(k));
        }
        lemma_dedup_by_is_deduped(f, before.drop_last(), shorter, dup, cur_then, prev_then);
        let earlier = collapsed(before[0], shorter);
        assert(run[n].dup == dup(before[n + 1], earlier.last()));
        assert(run[n].cur == cur_then(before[n + 1], earlier.last()));
        assert(run[n].prev == prev_then(before[n + 1], earlier.last()));
    } else {
        assert(before =~= seq![before[0]]);
    }
}

/// `dedup_by_key(key)` with a `key` that returns `key_of(x)` on every
/// element `x` and leaves `then(x)` in its place, where `==` on keys is
/// what `eq_spec` says: whatever run of comparisons tells what is left, it
/// is what `deduped_by_key` says.
pub proof fn lemma_dedup_by_key_is_deduped<T, K: PartialEq, F: FnMut(&mut T) -> K>(
    key: F,
    before: Seq<T>,
    run: Seq<Comparison<T>>,
    key_of: spec_fn(T) -> K,
    then: spec_fn(T) -> T,
)
    requires
        before.len() == run.len() + 1,
        forall|k: int|
            0 <= k < run.len() ==> if (#[trigger] run[k]).dup {
                exists|x: &mut T, p: &mut T, x_key: K, p_key: K|
                    *x == before[k + 1] && *p == collapsed(before[0], run.take(k)).last()
                        && *final(x) == run[k].cur && *final(p) == run[k].prev && call_ensures(
                        key,
                        (x,),
                        x_key,
                    ) && call_ensures(key, (p,), p_key) && (K::obeys_eq_spec() ==> x_key.eq_spec(
                        &p_key,
                    ))
            } else {
                exists|x: &mut T, p: &mut T, x_key: K, p_key: K|
                    *x == before[k + 1] && *p == collapsed(before[0], run.take(k)).last()
                        && *final(x) == run[k].cur && *final(p) == run[k].prev && call_ensures(
                        key,
                        (x,),
                        x_key,
                    ) && call_ensures(key, (p,), p_key) && (K::obeys_eq_spec() ==> !x_key.eq_spec(
                        &p_key,
                    ))
            },
        K::obeys_eq_spec(),
        forall|e: &mut T, k: K| #[trigger]
            call_ensures(key, (e,), k) ==> k == key_of(*e) && *final(e) == then(*e),
    ensures
        collapsed(before[0], run) == deduped_by_key(before, key_of, then),
    decreases run.len(),
{
    if run.len() > 0 {
        let n = run.len() - 1;
        let shorter = run.drop_last();
        assert(run.take(n) =~= shorter);
        assert forall|k: int| 0 <= k < shorter.len() implies if (#[trigger] shorter[k]).dup {
            exists|x: &mut T, p: &mut T, x_key: K, p_key: K|
                *x == before.drop_last()[k + 1] && *p == collapsed(
                    before.drop_last()[0],
                    shorter.take(k),
                ).last() && *final(x) == shorter[k].cur && *final(p) == shorter[k].prev
                    && call_ensures(key, (x,), x_key) && call_ensures(key, (p,), p_key) && (
                K::obeys_eq_spec() ==> x_key.eq_spec(&p_key))
        } else {
            exists|x: &mut T, p: &mut T, x_key: K, p_key: K|
                *x == before.drop_last()[k + 1] && *p == collapsed(
                    before.drop_last()[0],
                    shorter.take(k),
                ).last() && *final(x) == shorter[k].cur && *final(p) == shorter[k].prev
                    && call_ensures(key, (x,), x_key) && call_ensures(key, (p,), p_key) && (
                K::obeys_eq_spec() ==> !x_key.eq_spec(&p_key))
        } by {
            assert(shorter[k] == run[k]);
            assert(shorter.take(k) =~= run.take(k));
        }
        lemma_dedup_by_key_is_deduped(key, before.drop_last(), shorter, key_of, then);
        let earlier = collapsed(before[0], shorter);
        assert(run[n].dup == key_of(before[n + 1]).eq_spec(&key_of(earlier.last())));
        assert(run[n].cur == then(before[n + 1]));
        assert(run[n].prev == then(earlier.last()));
    } else {
        assert(before =~= seq![before[0]]);
    }
}

} // verus!
