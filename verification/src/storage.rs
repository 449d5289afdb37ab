//! The storage contract and the array-list operations derived from it.
//!
//! A container owns a buffer of element slots and a recorded length. A slot
//! is an `Option<T>`: `Some` holds a constructed element, `None` stands for
//! memory that holds no element. The slots in `[0, len)` are the live range.

use crate::compaction::{
    collapsed, deduped, deduped_by_key, kept, lemma_select_push, retained, select, Comparison,
};
use crate::laws::{
    lemma_dedup_by_is_deduped, lemma_dedup_by_key_is_deduped, lemma_retain_mut_is_kept,
    lemma_select_is_filter,
};
use vstd::prelude::*;
use vstd::std_specs::cmp::PartialEqSpec;

verus! {

/// What a container is, mathematically: every slot of its buffer and the
/// recorded length.
pub struct Model<T> {
    /// One entry per slot; the number of entries is the capacity.
    pub slots: Seq<Option<T>>,
    /// The recorded length.
    pub len: nat,
}

impl<T> Model<T> {
    /// The live-range invariant: the length does not exceed the capacity,
    /// which is a number of the machine; the slots below the length hold an
    /// element and the others hold none.
    pub open spec fn wf(self) -> bool {
        &&& self.len <= self.slots.len() <= usize::MAX
        &&& forall|i: int|
            0 <= i < self.slots.len() ==> (#[trigger] self.slots[i] is Some <==> i < self.len)
    }

    /// The live elements, in order.
    pub open spec fn view(self) -> Seq<T> {
        Seq::new(self.len, |i: int| self.slots[i]->0)
    }

    /// The number of slots.
    pub open spec fn capacity(self) -> nat {
        self.slots.len()
    }
}

/// The outcome of a capacity request that cannot be met.
#[derive(Clone, PartialEq, Eq, Debug)]
pub struct TryReserveError;

/// A contiguous container. An implementation provides `capacity`, `len`,
/// `try_reserve`, `as_ptr`, `as_mut_ptr` and `set_len`; every other
/// operation is written here, once, over those.
pub trait CommonVec<T>: Sized {
    /// The buffer and the recorded length.
    spec fn model(&self) -> Model<T>;

    /// Whether this storage can supply room for `additional` elements beyond
    /// the live ones.
    spec fn can_reserve(&self, additional: nat) -> bool;

    /// Returns the number of elements that the container can hold with the
    /// current buffer.
    fn capacity(&self) -> (capacity: usize)
        ensures
            capacity == self.model().capacity(),
    ;

    /// Reserves a capacity of at least `self.len() + additional` elements.
    ///
    /// The storage may provide more than was asked for.
    fn reserve(&mut self, additional: usize)
        requires
            old(self).model().wf(),
            old(self).can_reserve(additional as nat),
        ensures
            final(self).model().wf(),
            final(self).model()@.len() == old(self).model()@.len(),
            final(self).model()@ == old(self).model()@,
            final(self).model().capacity() >= old(self).model()@.len() + additional,
            final(self).model().capacity() >= old(self).model().capacity(),
    {
        self.try_reserve(additional).unwrap();
    }

    /// Reserves a capacity of at least `self.len() + additional` elements,
    /// without deliberately providing more.
    fn reserve_exact(&mut self, additional: usize)
        requires
            old(self).model().wf(),
            old(self).can_reserve(additional as nat),
        ensures
            final(self).model().wf(),
            final(self).model()@.len() == old(self).model()@.len(),
            final(self).model()@ == old(self).model()@,
            final(self).model().capacity() >= old(self).model()@.len() + additional,
            final(self).model().capacity() >= old(self).model().capacity(),
    {
        self.try_reserve_exact(additional).unwrap();
    }

    /// Tries to reserve a capacity of at least `self.len() + additional`
    /// elements. The live elements are kept, whether or not the request is
    /// met; a request that is not met changes nothing.
    fn try_reserve(&mut self, additional: usize) -> (result: Result<(), TryReserveError>)
        requires
            old(self).model().wf(),
        ensures
            result is Ok <==> old(self).can_reserve(additional as nat),
            result is Ok ==> final(self).model().capacity() >= old(self).model()@.len() + additional,
            result is Err ==> final(self).model() == old(self).model(),
            final(self).model().wf(),
            final(self).model()@.len() == old(self).model()@.len(),
            final(self).model()@ == old(self).model()@,
            final(self).model().capacity() >= old(self).model().capacity(),
    ;

    /// Tries to reserve a capacity of at least `self.len() + additional`
    /// elements, without deliberately providing more.
    fn try_reserve_exact(&mut self, additional: usize) -> (result: Result<(), TryReserveError>)
        requires
            old(self).model().wf(),
        ensures
            result is Ok <==> old(self).can_reserve(additional as nat),
            result is Ok ==> final(self).model().capacity() >= old(self).model()@.len() + additional,
            result is Err ==> final(self).model() == old(self).model(),
            final(self).model().wf(),
            final(self).model()@.len() == old(self).model()@.len(),
            final(self).model()@ == old(self).model()@,
            final(self).model().capacity() >= old(self).model().capacity(),
    {
        self.try_reserve(additional)
    }

    /// Shrinks the capacity as much as possible. A storage that cannot
    /// shrink leaves everything as it is.
    fn shrink_to_fit(&mut self)
        requires
            old(self).model().wf(),
        ensures
            final(self).model().wf(),
            final(self).model()@ == old(self).model()@,
            final(self).model().capacity() <= old(self).model().capacity(),
        default_ensures
            final(self).model() == old(self).model(),
    {
    }

    /// Shrinks the capacity as close to `min_capacity` as possible. A
    /// storage that cannot shrink leaves everything as it is.
    fn shrink_to(&mut self, min_capacity: usize)
        requires
            old(self).model().wf(),
        ensures
            final(self).model().wf(),
            final(self).model()@ == old(self).model()@,
            final(self).model().capacity() <= old(self).model().capacity(),
            old(self).model().capacity() >= min_capacity ==> final(self).model().capacity()
                >= min_capacity,
            old(self).model().capacity() < min_capacity ==> final(self).model().capacity()
                == old(self).model().capacity(),
        default_ensures
            final(self).model() == old(self).model(),
    {
    }

    /// Shortens the container to its first `len` elements and drops the
    /// rest. Does nothing if it holds no more than `len` elements.
    fn truncate(&mut self, len: usize)
        requires
            old(self).model().wf(),
        ensures
            final(self).model().wf(),
            final(self).model()@ == (if len < old(self).model()@.len() {
                old(self).model()@.take(len as int)
            } else {
                old(self).model()@
            }),
            final(self).model().capacity() == old(self).model().capacity(),
    {
        let cur_len = self.len();

        if cur_len > len {
            let buf = self.as_mut_ptr();
            let mut i: usize = len;

            while i < cur_len
                invariant
                    len <= i <= cur_len <= buf@.len(),
                    buf@.len() == old(self).model().slots.len(),
                    forall|j: int| 0 <= j < len ==> buf@[j] == old(self).model().slots[j],
                    forall|j: int| len <= j < i ==> buf@[j] is None,
                    forall|j: int| i <= j < buf@.len() ==> buf@[j] == old(self).model().slots[j],
                decreases cur_len - i,
            {
                buf[i] = None;
                i += 1;
            }

            self.set_len(len);
            assert(final(self).model()@ =~= old(self).model()@.take(len as int));
        }
    }

    /// Returns the live range as one contiguous run of slots, each of which
    /// holds an element.
    fn as_slice(&self) -> (live: &[Option<T>])
        requires
            self.model().wf(),
        ensures
            live@.len() == self.model()@.len(),
            forall|i: int| 0 <= i < live@.len() ==> live@[i] == Some(self.model()@[i]),
    {
        let len = self.len();
        let buf = self.as_ptr();
        let (live, _) = buf.split_at(len);
        live
    }

    /// Returns the live range for writing. The container is well formed
    /// again once every slot of the range holds an element.
    fn as_mut_slice(&mut self) -> (live: &mut [Option<T>])
        requires
            old(self).model().wf(),
        ensures
            live@ == old(self).model().slots.take(old(self).model()@.len() as int),
            final(live)@.len() == live@.len(),
            final(self).model().slots == final(live)@ + old(self).model().slots.skip(
                old(self).model()@.len() as int,
            ),
            final(self).model()@.len() == old(self).model()@.len(),
    {
        let len = self.len();
        let buf = self.as_mut_ptr();
        let (live, _) = buf.split_at_mut(len);
        live
    }

    /// Returns every slot of the buffer, from slot 0 on. The run is empty
    /// when the container has no buffer.
    fn as_ptr(&self) -> (buf: &[Option<T>])
        ensures
            buf@ == self.model().slots,
    ;

    /// Returns every slot of the buffer for writing, from slot 0 on. Neither
    /// the number of slots nor the recorded length changes.
    fn as_mut_ptr(&mut self) -> (buf: &mut [Option<T>])
        ensures
            buf@ == old(self).model().slots,
            final(self).model().slots == final(buf)@,
            final(self).model()@.len() == old(self).model()@.len(),
            final(self).model().capacity() == old(self).model().capacity(),
    ;

    /// Records `new_len` as the length and touches no slot. The caller has
    /// filled the slots that enter the live range and emptied those that
    /// leave it.
    fn set_len(&mut self, new_len: usize)
        requires
            new_len <= old(self).model().capacity(),
        ensures
            final(self).model()@.len() == new_len,
            final(self).model().slots == old(self).model().slots,
    ;

    /// Removes the element at position `index` and returns it.
    ///
    /// The last element takes its place, so the order of the elements is
    /// not kept, but the work does not grow with the length.
    fn swap_remove(&mut self, index: usize) -> (removed: T)
        requires
            old(self).model().wf(),
            index < old(self).model()@.len(),
        ensures
            final(self).model().wf(),
            removed == old(self).model()@[index as int],
            final(self).model()@ == old(self).model()@.update(
                index as int,
                old(self).model()@.last(),
            ).drop_last(),
            final(self).model().capacity() == old(self).model().capacity(),
    {
        let len = self.len();
        let buf = self.as_mut_ptr();

        let removed = buf[index].take().unwrap();
        if index < len - 1 {
            let last = buf[len - 1].take();
            buf[index] = last;
        }
        self.set_len(len - 1);

        assert(final(self).model()@ =~= old(self).model()@.update(
            index as int,
            old(self).model()@.last(),
        ).drop_last());
        removed
    }

    /// Inserts `element` at position `index`.
    ///
    /// The elements at and after `index` move one position to the right.
    /// A full container asks its storage for room for one more element.
    fn insert(&mut self, index: usize, element: T)
        requires
            old(self).model().wf(),
            index <= old(self).model()@.len(),
            old(self).model()@.len() < old(self).model().capacity() || old(self).can_reserve(1),
        ensures
            final(self).model().wf(),
            final(self).model()@ == old(self).model()@.insert(index as int, element),
            final(self).model().capacity() >= old(self).model().capacity(),
            old(self).model()@.len() < old(self).model().capacity() ==> final(self).model().capacity()
                == old(self).model().capacity(),
    {
        let len = self.len();
        let capacity = self.capacity();

        if len == capacity {
            self.reserve(1);
        }
        let ghost before = self.model();

        let buf = self.as_mut_ptr();
        let mut i: usize = len;

        while i > index
            invariant
                index <= i <= len < buf@.len(),
                buf@.len() == before.slots.len(),
                before.wf(),
                before.len == len,
                forall|j: int| 0 <= j < i ==> buf@[j] == before.slots[j],
                buf@[i as int] is None,
                forall|j: int| i < j <= len ==> buf@[j] == before.slots[j - 1],
                forall|j: int| len < j < buf@.len() ==> buf@[j] is None,
            decreases i,
        {
            let moved = buf[i - 1].take();
            buf[i] = moved;
            i -= 1;
        }

        buf[index] = Some(element);
        assert forall|j: int| 0 <= j < buf@.len() implies (#[trigger] buf@[j] is Some <==> j < len
            + 1) by {
            if j < index {
                assert(before.slots[j] is Some);
            } else if index < j <= len {
                assert(before.slots[j - 1] is Some);
            }
        }
        self.set_len(len + 1);

        assert(final(self).model()@ =~= old(self).model()@.insert(index as int, element));
    }

    /// Removes the element at position `index` and returns it.
    ///
    /// The elements after `index` move one position to the left, so the
    /// order of the others is kept.
    fn remove(&mut self, index: usize) -> (removed: T)
        requires
            old(self).model().wf(),
            index < old(self).model()@.len(),
        ensures
            final(self).model().wf(),
            removed == old(self).model()@[index as int],
            final(self).model()@ == old(self).model()@.remove(index as int),
            final(self).model().capacity() == old(self).model().capacity(),
    {
        let len = self.len();
        let buf = self.as_mut_ptr();

        let removed = buf[index].take().unwrap();
        let mut i: usize = index;

        while i < len - 1
            invariant
                index <= i < len <= buf@.len(),
                buf@.len() == old(self).model().slots.len(),
                forall|j: int| 0 <= j < index ==> buf@[j] == old(self).model().slots[j],
                forall|j: int| index <= j < i ==> buf@[j] == old(self).model().slots[j + 1],
                buf@[i as int] is None,
                forall|j: int| i < j < buf@.len() ==> buf@[j] == old(self).model().slots[j],
            decreases len - i,
        {
            let moved = buf[i + 1].take();
            buf[i] = moved;
            i += 1;
        }

        self.set_len(len - 1);

        assert(final(self).model()@ =~= old(self).model()@.remove(index as int));
        removed
    }

    /// Keeps the elements for which `f` returns `true` and drops the others.
    ///
    /// One pass from the front: each element is judged once, and those that
    /// stay close up to the front in their order. What is left is told by
    /// the answers of `f`, one for each element. Whenever `f` answers
    /// `p(x)` on an element `x`, the elements that satisfy `p` are left, in
    /// their order.
    fn retain<F>(&mut self, mut f: F) where F: FnMut(&T) -> bool
        requires
            old(self).model().wf(),
            forall|i: int|
                0 <= i < old(self).model()@.len() ==> call_requires(f, (&old(self).model()@[i],)),
        ensures
            final(self).model().wf(),
            retained(f, old(self).model()@, final(self).model()@),
            forall|p: spec_fn(T) -> bool|
                (forall|x: T, k: bool| #[trigger] call_ensures(f, (&x,), k) ==> k == p(x))
                    ==> final(self).model()@ == #[trigger] old(self).model()@.filter(p),
            final(self).model().capacity() == old(self).model().capacity(),
    {
        let len = self.len();
        let buf = self.as_mut_ptr();
        let ghost before = old(self).model()@;
        let ghost slots = old(self).model().slots;
        let ghost f0 = f;
        let ghost mut keep: Seq<bool> = Seq::empty();

        let mut new_len: usize = 0;
        let mut i: usize = 0;

        while i < len
            invariant
                new_len <= i <= len <= buf@.len(),
                buf@.len() == slots.len(),
                before.len() == len,
                forall|j: int| 0 <= j < len ==> #[trigger] slots[j] == Some(before[j]),
                forall|j: int| 0 <= j < len ==> call_requires(f0, (&#[trigger] before[j],)),
                f == f0,
                keep.len() == i,
                forall|j: int| 0 <= j < i ==> call_ensures(f0, (&before[j],), #[trigger] keep[j]),
                select(before.take(i as int), keep).len() == new_len,
                forall|j: int|
                    0 <= j < new_len ==> buf@[j] == Some(select(before.take(i as int), keep)[j]),
                forall|j: int| new_len <= j < i ==> buf@[j] is None,
                forall|j: int| i <= j < buf@.len() ==> buf@[j] == slots[j],
            decreases len - i,
        {
            assert(buf@[i as int] == slots[i as int]);
            let cur = buf[i].take().unwrap();
            assert(cur == before[i as int]);
            let is_retained = f(&cur);

            proof {
                lemma_select_push(before.take(i as int), keep, cur, is_retained);
                assert(before.take(i as int).push(cur) =~= before.take(i + 1));
                keep = keep.push(is_retained);
            }

            if is_retained {
                buf[new_len] = Some(cur);
                new_len += 1;
            }
            i += 1;
        }

        assert forall|j: int| 0 <= j < buf@.len() implies (#[trigger] buf@[j] is Some <==> j
            < new_len) by {
            if j >= len {
                assert(buf@[j] == slots[j]);
            }
        }
        self.set_len(new_len);

        proof {
            assert(before.take(len as int) =~= before);
            assert(final(self).model()@ =~= select(before, keep));
            assert forall|p: spec_fn(T) -> bool|
                (forall|x: T, k: bool| #[trigger] call_ensures(f0, (&x,), k) ==> k == p(x))
                implies final(self).model()@ == #[trigger] before.filter(p) by {
                assert forall|j: int| 0 <= j < len implies keep[j] == p(before[j]) by {
                    assert(call_ensures(f0, (&before[j],), keep[j]));
                }
                lemma_select_is_filter(before, keep, p);
            }
        }
    }

    /// Keeps the elements for which `f` returns `true` and drops the others.
    /// `f` may change an element while it judges it.
    ///
    /// One pass from the front: each element is judged once, and those that
    /// stay close up to the front in their order. What is left is told by
    /// a run of calls of `f`, one on each element: `seen` holds the elements
    /// as `f` gave them back, `keep` its answers.
    ///
    /// Whenever `f` answers `keep(x)` on an element `x` and leaves `then(x)`
    /// in its place, the container ends as `kept` says.
    fn retain_mut<F>(&mut self, mut f: F) where F: FnMut(&mut T) -> bool
        requires
            old(self).model().wf(),
            forall|e: &mut T, i: int|
                0 <= i < old(self).model()@.len() && *e == old(self).model()@[i] ==> call_requires(
                    f,
                    (e,),
                ),
        ensures
            final(self).model().wf(),
            exists|seen: Seq<T>, keep: Seq<bool>|
                {
                    &&& seen.len() == old(self).model()@.len()
                    &&& keep.len() == old(self).model()@.len()
                    &&& forall|i: int|
                        0 <= i < old(self).model()@.len() ==> if #[trigger] keep[i] {
                            exists|e: &mut T|
                                *e == old(self).model()@[i] && *final(e) == seen[i]
                                    && call_ensures(f, (e,), true)
                        } else {
                            exists|e: &mut T|
                                *e == old(self).model()@[i] && *final(e) == seen[i]
                                    && call_ensures(f, (e,), false)
                        }
                    &&& final(self).model()@ == select(seen, keep)
                },
            forall|keep: spec_fn(T) -> bool, then: spec_fn(T) -> T|
                (forall|e: &mut T, k: bool| #[trigger]
                    call_ensures(f, (e,), k) ==> k == keep(*e) && *final(e) == then(*e))
                    ==> final(self).model()@ == #[trigger] kept(old(self).model()@, keep, then),
            final(self).model().capacity() == old(self).model().capacity(),
    {
        let len = self.len();
        let buf = self.as_mut_ptr();
        let ghost before = old(self).model()@;
        let ghost slots = old(self).model().slots;
        let ghost f0 = f;
        let ghost mut seen: Seq<T> = Seq::empty();
        let ghost mut keep: Seq<bool> = Seq::empty();

        let mut new_len: usize = 0;
        let mut i: usize = 0;

        while i < len
            invariant
                new_len <= i <= len <= buf@.len(),
                buf@.len() == slots.len(),
                before.len() == len,
                forall|j: int| 0 <= j < len ==> #[trigger] slots[j] == Some(before[j]),
                forall|e: &mut T, j: int|
                    0 <= j < len && *e == before[j] ==> call_requires(f0, (e,)),
                f == f0,
                seen.len() == i,
                keep.len() == i,
                forall|j: int|
                    0 <= j < i ==> if #[trigger] keep[j] {
                        exists|e: &mut T|
                            *e == before[j] && *final(e) == seen[j] && call_ensures(f0, (e,), true)
                    } else {
                        exists|e: &mut T|
                            *e == before[j] && *final(e) == seen[j] && call_ensures(
                                f0,
                                (e,),
                                false,
                            )
                    },
                select(seen, keep).len() == new_len,
                forall|j: int| 0 <= j < new_len ==> buf@[j] == Some(select(seen, keep)[j]),
                forall|j: int| new_len <= j < i ==> buf@[j] is None,
                forall|j: int| i <= j < buf@.len() ==> buf@[j] == slots[j],
            decreases len - i,
        {
            assert(buf@[i as int] == slots[i as int]);
            let mut cur = buf[i].take().unwrap();
            let is_retained = f(&mut cur);

            proof {
                lemma_select_push(seen, keep, cur, is_retained);
                seen = seen.push(cur);
                keep = keep.push(is_retained);
            }

            if is_retained {
                buf[new_len] = Some(cur);
                new_len += 1;
            }
            i += 1;
        }

        assert forall|j: int| 0 <= j < buf@.len() implies (#[trigger] buf@[j] is Some <==> j
            < new_len) by {
            if j >= len {
                assert(buf@[j] == slots[j]);
            }
        }
        self.set_len(new_len);

        proof {
            assert(final(self).model()@ =~= select(seen, keep));
            assert forall|keep_fn: spec_fn(T) -> bool, then_fn: spec_fn(T) -> T|
                (forall|e: &mut T, k: bool| #[trigger]
                    call_ensures(f0, (e,), k) ==> k == keep_fn(*e) && *final(e) == then_fn(*e))
                implies final(self).model()@ == #[trigger] kept(before, keep_fn, then_fn) by {
                lemma_retain_mut_is_kept(f0, before, seen, keep, keep_fn, then_fn);
            }
        }
    }

    /// Drops every element whose key equals the key of the element kept
    /// before it, so that runs of consecutive elements with equal keys
    /// collapse to their first element. Elements with equal keys that do
    /// not stand next to each other are all kept.
    ///
    /// One pass from the front; each comparison takes the key of the
    /// element, then the key of the last kept element. What is left is told
    /// by a run of comparisons, one for each element after the first: what
    /// `key` left of the two elements, and whether the keys were equal.
    ///
    /// Whenever `key` returns `key_of(x)` on an element `x` and leaves
    /// `then(x)` in its place, and `==` on keys is what `eq_spec` says, the
    /// container ends as `deduped_by_key` says.
    fn dedup_by_key<F, K>(&mut self, mut key: F) where F: FnMut(&mut T) -> K, K: PartialEq<K>
        requires
            old(self).model().wf(),
            forall|e: &mut T| call_requires(key, (e,)),
        ensures
            final(self).model().wf(),
            old(self).model()@.len() == 0 ==> final(self).model()@ == old(self).model()@,
            old(self).model()@.len() > 0 ==> exists|run: Seq<Comparison<T>>|
                {
                    &&& run.len() == old(self).model()@.len() - 1
                    &&& forall|k: int|
                        0 <= k < run.len() ==> if (#[trigger] run[k]).dup {
                            exists|x: &mut T, p: &mut T, x_key: K, p_key: K|
                                *x == old(self).model()@[k + 1] && *p == collapsed(
                                    old(self).model()@[0],
                                    run.take(k),
                                ).last() && *final(x) == run[k].cur && *final(p) == run[k].prev
                                    && call_ensures(key, (x,), x_key) && call_ensures(
                                    key,
                                    (p,),
                                    p_key,
                                ) && (K::obeys_eq_spec() ==> x_key.eq_spec(&p_key))
                        } else {
                            exists|x: &mut T, p: &mut T, x_key: K, p_key: K|
                                *x == old(self).model()@[k + 1] && *p == collapsed(
                                    old(self).model()@[0],
                                    run.take(k),
                                ).last() && *final(x) == run[k].cur && *final(p) == run[k].prev
                                    && call_ensures(key, (x,), x_key) && call_ensures(
                                    key,
                                    (p,),
                                    p_key,
                                ) && (K::obeys_eq_spec() ==> !x_key.eq_spec(&p_key))
                        }
                    &&& final(self).model()@ == collapsed(old(self).model()@[0], run)
                },
            forall|key_of: spec_fn(T) -> K, then: spec_fn(T) -> T|
                K::obeys_eq_spec() && (forall|e: &mut T, k: K| #[trigger]
                    call_ensures(key, (e,), k) ==> k == key_of(*e) && *final(e) == then(*e))
                    ==> final(self).model()@ == #[trigger] deduped_by_key(
                    old(self).model()@,
                    key_of,
                    then,
                ),
            final(self).model().capacity() == old(self).model().capacity(),
    {
        let len = self.len();

        if len > 1 {
            let buf = self.as_mut_ptr();
            let ghost before = old(self).model()@;
            let ghost slots = old(self).model().slots;
            let ghost key0 = key;
            let ghost mut run: Seq<Comparison<T>> = Seq::empty();

            let mut new_len: usize = 1;
            let mut i: usize = 1;

            assert(buf@[0] == slots[0]);

            while i < len
                invariant
                    1 <= new_len <= i <= len <= buf@.len(),
                    buf@.len() == slots.len(),
                    before.len() == len,
                    forall|j: int| 0 <= j < len ==> #[trigger] slots[j] == Some(before[j]),
                    forall|e: &mut T| call_requires(key0, (e,)),
                    key == key0,
                    run.len() == i - 1,
                    forall|k: int|
                        0 <= k < run.len() ==> if (#[trigger] run[k]).dup {
                            exists|x: &mut T, p: &mut T, x_key: K, p_key: K|
                                *x == before[k + 1] && *p == collapsed(before[0], run.take(k)).last()
                                    && *final(x) == run[k].cur && *final(p) == run[k].prev
                                    && call_ensures(key0, (x,), x_key) && call_ensures(
                                    key0,
                                    (p,),
                                    p_key,
                                ) && (K::obeys_eq_spec() ==> x_key.eq_spec(&p_key))
                        } else {
                            exists|x: &mut T, p: &mut T, x_key: K, p_key: K|
                                *x == before[k + 1] && *p == collapsed(before[0], run.take(k)).last()
                                    && *final(x) == run[k].cur && *final(p) == run[k].prev
                                    && call_ensures(key0, (x,), x_key) && call_ensures(
                                    key0,
                                    (p,),
                                    p_key,
                                ) && (K::obeys_eq_spec() ==> !x_key.eq_spec(&p_key))
                        },
                    collapsed(before[0], run).len() == new_len,
                    forall|j: int|
                        0 <= j < new_len ==> buf@[j] == Some(collapsed(before[0], run)[j]),
                    forall|j: int| new_len <= j < i ==> buf@[j] is None,
                    forall|j: int| i <= j < buf@.len() ==> buf@[j] == slots[j],
                decreases len - i,
            {
                assert(buf@[i as int] == slots[i as int]);
                let mut cur = buf[i].take().unwrap();
                let mut prev = buf[new_len - 1].take().unwrap();
                let ghost given_prev = prev;

                let cur_key = key(&mut cur);
                let prev_key = key(&mut prev);
                let is_dup = cur_key == prev_key;

                buf[new_len - 1] = Some(prev);
                if !is_dup {
                    buf[new_len] = Some(cur);
                    new_len += 1;
                }

                proof {
                    let earlier = run;
                    run = run.push(Comparison { cur, prev, dup: is_dup });
                    assert(run.drop_last() =~= earlier);
                    assert(given_prev == collapsed(before[0], earlier).last());
                    assert forall|k: int| 0 <= k < run.len() implies if (#[trigger] run[k]).dup {
                        exists|x: &mut T, p: &mut T, x_key: K, p_key: K|
                            *x == before[k + 1] && *p == collapsed(before[0], run.take(k)).last()
                                && *final(x) == run[k].cur && *final(p) == run[k].prev
                                && call_ensures(key0, (x,), x_key) && call_ensures(
                                key0,
                                (p,),
                                p_key,
                            ) && (K::obeys_eq_spec() ==> x_key.eq_spec(&p_key))
                    } else {
                        exists|x: &mut T, p: &mut T, x_key: K, p_key: K|
                            *x == before[k + 1] && *p == collapsed(before[0], run.take(k)).last()
                                && *final(x) == run[k].cur && *final(p) == run[k].prev
                                && call_ensures(key0, (x,), x_key) && call_ensures(
                                key0,
                                (p,),
                                p_key,
                            ) && (K::obeys_eq_spec() ==> !x_key.eq_spec(&p_key))
                    } by {
                        if k < earlier.len() {
                            assert(run[k] == earlier[k]);
                            assert(run.take(k) =~= earlier.take(k));
                        } else {
                            assert(run.take(k) =~= earlier);
                        }
                    }
                }
                i += 1;
            }

            assert forall|j: int| 0 <= j < buf@.len() implies (#[trigger] buf@[j] is Some <==> j
                < new_len) by {
                if j >= len {
                    assert(buf@[j] == slots[j]);
                }
            }
            self.set_len(new_len);

            proof {
                assert(final(self).model()@ =~= collapsed(before[0], run));
                assert forall|key_of: spec_fn(T) -> K, then: spec_fn(T) -> T|
                    K::obeys_eq_spec() && (forall|e: &mut T, k: K| #[trigger]
                        call_ensures(key0, (e,), k) ==> k == key_of(*e) && *final(e) == then(*e))
                    implies final(self).model()@ == #[trigger] deduped_by_key(
                    before,
                    key_of,
                    then,
                ) by {
                    lemma_dedup_by_key_is_deduped(key0, before, run, key_of, then);
                }
            }
        } else {
            assert(old(self).model()@.len() <= 1);
            assert(len == 1 ==> final(self).model()@ =~= collapsed(
                old(self).model()@[0],
                Seq::<Comparison<T>>::empty(),
            ));
        }
    }

    /// Drops every element that `same_bucket` puts in one bucket with the
    /// element kept before it, so that runs of consecutive duplicates
    /// collapse to their first element. Duplicates that do not stand next
    /// to each other are all kept.
    ///
    /// One pass from the front; `same_bucket(x, p)` gets the element and
    /// the last kept element, and may change both. What is left is told by
    /// a run of comparisons, one for each element after the first: what the
    /// call left of the two elements, and its answer.
    ///
    /// Whenever `same_bucket` answers `dup(x, p)` and leaves
    /// `cur_then(x, p)` and `prev_then(x, p)` in their places, the container
    /// ends as `deduped` says.
    fn dedup_by<F>(&mut self, mut same_bucket: F) where F: FnMut(&mut T, &mut T) -> bool
        requires
            old(self).model().wf(),
            forall|x: &mut T, p: &mut T| call_requires(same_bucket, (x, p)),
        ensures
            final(self).model().wf(),
            old(self).model()@.len() == 0 ==> final(self).model()@ == old(self).model()@,
            old(self).model()@.len() > 0 ==> exists|run: Seq<Comparison<T>>|
                {
                    &&& run.len() == old(self).model()@.len() - 1
                    &&& forall|k: int|
                        0 <= k < run.len() ==> if (#[trigger] run[k]).dup {
                            exists|x: &mut T, p: &mut T|
                                *x == old(self).model()@[k + 1] && *p == collapsed(
                                    old(self).model()@[0],
                                    run.take(k),
                                ).last() && *final(x) == run[k].cur && *final(p) == run[k].prev
                                    && call_ensures(same_bucket, (x, p), true)
                        } else {
                            exists|x: &mut T, p: &mut T|
                                *x == old(self).model()@[k + 1] && *p == collapsed(
                                    old(self).model()@[0],
                                    run.take(k),
                                ).last() && *final(x) == run[k].cur && *final(p) == run[k].prev
                                    && call_ensures(same_bucket, (x, p), false)
                        }
                    &&& final(self).model()@ == collapsed(old(self).model()@[0], run)
                },
            forall|
                dup: spec_fn(T, T) -> bool,
                cur_then: spec_fn(T, T) -> T,
                prev_then: spec_fn(T, T) -> T,
            |
                (forall|x: &mut T, p: &mut T, k: bool| #[trigger]
                    call_ensures(same_bucket, (x, p), k) ==> k == dup(*x, *p) && *final(x)
                        == cur_then(*x, *p) && *final(p) == prev_then(*x, *p))
                    ==> final(self).model()@ == #[trigger] deduped(
                    old(self).model()@,
                    dup,
                    cur_then,
                    prev_then,
                ),
            final(self).model().capacity() == old(self).model().capacity(),
    {
        let len = self.len();

        if len > 1 {
            let buf = self.as_mut_ptr();
            let ghost before = old(self).model()@;
            let ghost slots = old(self).model().slots;
            let ghost same0 = same_bucket;
            let ghost mut run: Seq<Comparison<T>> = Seq::empty();

            let mut new_len: usize = 1;
            let mut i: usize = 1;

            assert(buf@[0] == slots[0]);

            while i < len
                invariant
                    1 <= new_len <= i <= len <= buf@.len(),
                    buf@.len() == slots.len(),
                    before.len() == len,
                    forall|j: int| 0 <= j < len ==> #[trigger] slots[j] == Some(before[j]),
                    forall|x: &mut T, p: &mut T| call_requires(same0, (x, p)),
                    same_bucket == same0,
                    run.len() == i - 1,
                    forall|k: int|
                        0 <= k < run.len() ==> if (#[trigger] run[k]).dup {
                            exists|x: &mut T, p: &mut T|
                                *x == before[k + 1] && *p == collapsed(before[0], run.take(k)).last()
                                    && *final(x) == run[k].cur && *final(p) == run[k].prev
                                    && call_ensures(same0, (x, p), true)
                        } else {
                            exists|x: &mut T, p: &mut T|
                                *x == before[k + 1] && *p == collapsed(before[0], run.take(k)).last()
                                    && *final(x) == run[k].cur && *final(p) == run[k].prev
                                    && call_ensures(same0, (x, p), false)
                        },
                    collapsed(before[0], run).len() == new_len,
                    forall|j: int|
                        0 <= j < new_len ==> buf@[j] == Some(collapsed(before[0], run)[j]),
                    forall|j: int| new_len <= j < i ==> buf@[j] is None,
                    forall|j: int| i <= j < buf@.len() ==> buf@[j] == slots[j],
                decreases len - i,
            {
                assert(buf@[i as int] == slots[i as int]);
                let mut cur = buf[i].take().unwrap();
                let mut prev = buf[new_len - 1].take().unwrap();
                let ghost given_prev = prev;

                let is_dup = same_bucket(&mut cur, &mut prev);

                buf[new_len - 1] = Some(prev);
                if !is_dup {
                    buf[new_len] = Some(cur);
                    new_len += 1;
                }

                proof {
                    let earlier = run;
                    run = run.push(Comparison { cur, prev, dup: is_dup });
                    assert(run.drop_last() =~= earlier);
                    assert(given_prev == collapsed(before[0], earlier).last());
                    assert forall|k: int| 0 <= k < run.len() implies if (#[trigger] run[k]).dup {
                        exists|x: &mut T, p: &mut T|
                            *x == before[k + 1] && *p == collapsed(before[0], run.take(k)).last()
                                && *final(x) == run[k].cur && *final(p) == run[k].prev
                                && call_ensures(same0, (x, p), true)
                    } else {
                        exists|x: &mut T, p: &mut T|
                            *x == before[k + 1] && *p == collapsed(before[0], run.take(k)).last()
                                && *final(x) == run[k].cur && *final(p) == run[k].prev
                                && call_ensures(same0, (x, p), false)
                    } by {
                        if k < earlier.len() {
                            assert(run[k] == earlier[k]);
                            assert(run.take(k) =~= earlier.take(k));
                        } else {
                            assert(run.take(k) =~= earlier);
                        }
                    }
                }
                i += 1;
            }

            assert forall|j: int| 0 <= j < buf@.len() implies (#[trigger] buf@[j] is Some <==> j
                < new_len) by {
                if j >= len {
                    assert(buf@[j] == slots[j]);
                }
            }
            self.set_len(new_len);

            proof {
                assert(final(self).model()@ =~= collapsed(before[0], run));
                assert forall|
                    dup: spec_fn(T, T) -> bool,
                    cur_then: spec_fn(T, T) -> T,
                    prev_then: spec_fn(T, T) -> T,
                |
                    (forall|x: &mut T, p: &mut T, k: bool| #[trigger]
                        call_ensures(same0, (x, p), k) ==> k == dup(*x, *p) && *final(x)
                            == cur_then(*x, *p) && *final(p) == prev_then(*x, *p))
                    implies final(self).model()@ == #[trigger] deduped(
                    before,
                    dup,
                    cur_then,
                    prev_then,
                ) by {
                    lemma_dedup_by_is_deduped(same0, before, run, dup, cur_then, prev_then);
                }
            }
        } else {
            assert(old(self).model()@.len() <= 1);
            assert(len == 1 ==> final(self).model()@ =~= collapsed(
                old(self).model()@[0],
                Seq::<Comparison<T>>::empty(),
            ));
        }
    }

    /// Appends `value` to the end of the container. A full container asks
    /// its storage for room for one more element.
    fn push(&mut self, value: T)
        requires
            old(self).model().wf(),
            old(self).model()@.len() < old(self).model().capacity() || old(self).can_reserve(1),
        ensures
            final(self).model().wf(),
            final(self).model()@ == old(self).model()@.push(value),
            final(self).model().capacity() >= old(self).model().capacity(),
            old(self).model()@.len() < old(self).model().capacity() ==> final(self).model().capacity()
                == old(self).model().capacity(),
    {
        let len = self.len();
        let capacity = self.capacity();

        if len == capacity {
            self.reserve(1);
        }

        let buf = self.as_mut_ptr();
        buf[len] = Some(value);
        self.set_len(len + 1);

        assert(final(self).model()@ =~= old(self).model()@.push(value));
    }

    /// Removes the last element and returns it, or returns `None` if the
    /// container is empty.
    fn pop(&mut self) -> (popped: Option<T>)
        requires
            old(self).model().wf(),
        ensures
            final(self).model().wf(),
            old(self).model()@.len() == 0 ==> popped is None && final(self).model()@
                == old(self).model()@,
            old(self).model()@.len() > 0 ==> popped == Some(old(self).model()@.last())
                && final(self).model()@ == old(self).model()@.drop_last(),
            final(self).model().capacity() == old(self).model().capacity(),
    {
        let len = self.len();

        if len > 0 {
            let new_len = len - 1;
            let buf = self.as_mut_ptr();
            let value = buf[new_len].take();
            self.set_len(new_len);

            assert(final(self).model()@ =~= old(self).model()@.drop_last());
            value
        } else {
            None
        }
    }

    /// Drops every element. The capacity stays as it is.
    fn clear(&mut self)
        requires
            old(self).model().wf(),
        ensures
            final(self).model().wf(),
            final(self).model()@ == Seq::<T>::empty(),
            final(self).model().capacity() == old(self).model().capacity(),
    {
        let len = self.len();
        let buf = self.as_mut_ptr();
        let mut i: usize = 0;

        while i < len
            invariant
                i <= len <= buf@.len(),
                buf@.len() == old(self).model().slots.len(),
                forall|j: int| 0 <= j < i ==> buf@[j] is None,
                forall|j: int| i <= j < buf@.len() ==> buf@[j] == old(self).model().slots[j],
            decreases len - i,
        {
            buf[i] = None;
            i += 1;
        }

        self.set_len(0);
        assert(final(self).model()@ =~= Seq::<T>::empty());
    }

    /// Returns the number of live elements.
    fn len(&self) -> (len: usize)
        ensures
            len == self.model()@.len(),
    ;

    /// Returns whether the container holds no element.
    fn is_empty(&self) -> (empty: bool)
        ensures
            empty <==> self.model()@.len() == 0,
    {
        let len = self.len();
        len == 0
    }

    /// Resizes the container to `new_len` elements.
    ///
    /// A shorter length drops the elements beyond it. A longer one fills
    /// each new position, from the front, with what one call of `f`
    /// returns; the storage is asked for room where the buffer is too
    /// small.
    fn resize_with<F>(&mut self, new_len: usize, mut f: F) where F: FnMut() -> T
        requires
            old(self).model().wf(),
            new_len > old(self).model()@.len() ==> call_requires(f, ()),
            new_len <= old(self).model().capacity() || old(self).can_reserve(
                (new_len - old(self).model()@.len()) as nat,
            ),
        ensures
            final(self).model().wf(),
            final(self).model()@.len() == new_len,
            new_len <= old(self).model()@.len() ==> final(self).model()@ == old(self).model()@.take(
                new_len as int,
            ),
            new_len > old(self).model()@.len() ==> final(self).model()@.take(
                old(self).model()@.len() as int,
            ) == old(self).model()@,
            forall|i: int|
                old(self).model()@.len() <= i < new_len ==> call_ensures(
                    f,
                    (),
                    #[trigger] final(self).model()@[i],
                ),
            final(self).model().capacity() >= old(self).model().capacity(),
            new_len <= old(self).model().capacity() ==> final(self).model().capacity()
                == old(self).model().capacity(),
    {
        let len = self.len();

        if new_len > len {
            let capacity = self.capacity();
            if new_len > capacity {
                self.reserve(new_len - len);
            }
            let ghost grown = self.model();
            let ghost f0 = f;

            let buf = self.as_mut_ptr();
            let mut i: usize = len;

            while i < new_len
                invariant
                    len <= i <= new_len <= buf@.len(),
                    buf@.len() == grown.slots.len(),
                    grown.wf(),
                    grown.len == len,
                    call_requires(f0, ()),
                    f == f0,
                    forall|j: int| 0 <= j < len ==> buf@[j] == grown.slots[j],
                    forall|j: int|
                        len <= j < i ==> buf@[j] is Some && call_ensures(f0, (), buf@[j]->0),
                    forall|j: int| i <= j < buf@.len() ==> buf@[j] is None,
                decreases new_len - i,
            {
                buf[i] = Some(f());
                i += 1;
            }

            assert forall|j: int| 0 <= j < buf@.len() implies (#[trigger] buf@[j] is Some <==> j
                < new_len) by {
                if j < len {
                    assert(buf@[j] == grown.slots[j]);
                }
            }
            self.set_len(new_len);

            proof {
                assert(grown@ == old(self).model()@);
                assert(final(self).model()@.take(len as int) =~= old(self).model()@) by {
                    assert forall|j: int| 0 <= j < len implies final(self).model()@[j]
                        == old(self).model()@[j] by {
                        assert(grown@[j] == grown.slots[j]->0);
                    }
                }
            }
        } else {
            self.truncate(new_len);
            assert(old(self).model()@.take(new_len as int) =~= final(self).model()@);
        }
    }

    /// Returns the slots after the live range, none of which holds an
    /// element. Whoever fills a run of them from the front publishes it
    /// with `set_len`.
    fn spare_capacity_mut(&mut self) -> (spare: &mut [Option<T>])
        requires
            old(self).model().wf(),
        ensures
            spare@ == old(self).model().slots.skip(old(self).model()@.len() as int),
            forall|i: int| 0 <= i < spare@.len() ==> spare@[i] is None,
            final(spare)@.len() == spare@.len(),
            final(self).model().slots == old(self).model().slots.take(
                old(self).model()@.len() as int,
            ) + final(spare)@,
            final(self).model()@.len() == old(self).model()@.len(),
    {
        let len = self.len();
        let buf = self.as_mut_ptr();
        let (_, spare) = buf.split_at_mut(len);
        spare
    }
}

/// Bulk transfer from one container to another, whatever storage each is
/// built on. Every container has it.
pub trait Append<T, V: CommonVec<T>>: CommonVec<T> {
    /// Moves all the elements of `other` to the end of `self`, in their
    /// order. `other` is empty afterwards and keeps its capacity.
    ///
    /// Where the elements of both do not fit in the buffer of `self`, its
    /// storage is asked for room for those of `other`.
    fn append(&mut self, other: &mut V)
        requires
            old(self).model().wf(),
            old(other).model().wf(),
            old(self).model()@.len() + old(other).model()@.len() <= old(self).model().capacity()
                || old(self).can_reserve(old(other).model()@.len()),
        ensures
            final(self).model().wf(),
            final(other).model().wf(),
            final(self).model()@ == old(self).model()@ + old(other).model()@,
            final(other).model()@ == Seq::<T>::empty(),
            final(self).model().capacity() >= old(self).model().capacity(),
            old(self).model()@.len() + old(other).model()@.len() <= old(self).model().capacity()
                ==> final(self).model().capacity() == old(self).model().capacity(),
            final(other).model().capacity() == old(other).model().capacity(),
    {
        let len = self.len();
        let capacity = self.capacity();
        let other_len = other.len();

        if other_len > capacity - len {
            self.reserve(other_len);
        }
        let total_len = len + other_len;
        let ghost grown = self.model();

        let buf = self.as_mut_ptr();
        let other_buf = other.as_mut_ptr();
        let mut i: usize = 0;

        while i < other_len
            invariant
                i <= other_len <= other_buf@.len(),
                total_len == len + other_len,
                total_len <= buf@.len(),
                buf@.len() == grown.slots.len(),
                other_buf@.len() == old(other).model().slots.len(),
                forall|j: int| 0 <= j < len ==> buf@[j] == grown.slots[j],
                forall|j: int| len <= j < len + i ==> buf@[j] == old(other).model().slots[j - len],
                forall|j: int| len + i <= j < buf@.len() ==> buf@[j] == grown.slots[j],
                forall|j: int| 0 <= j < i ==> other_buf@[j] is None,
                forall|j: int|
                    i <= j < other_buf@.len() ==> other_buf@[j] == old(other).model().slots[j],
            decreases other_len - i,
        {
            let moved = other_buf[i].take();
            buf[len + i] = moved;
            i += 1;
        }

        assert forall|j: int| 0 <= j < buf@.len() implies (#[trigger] buf@[j] is Some <==> j
            < total_len) by {
            if j < len {
                assert(buf@[j] == grown.slots[j]);
            } else if j < total_len {
                assert(buf@[j] == old(other).model().slots[j - len]);
                assert(old(other).model().slots[j - len] is Some);
            } else {
                assert(buf@[j] == grown.slots[j]);
            }
        }
        assert forall|j: int| 0 <= j < other_buf@.len() implies #[trigger] other_buf@[j] is None by {
            if j >= other_len {
                assert(other_buf@[j] == old(other).model().slots[j]);
            }
        }
        self.set_len(total_len);
        other.set_len(0);

        proof {
            assert(grown@ == old(self).model()@);
            assert(final(self).model()@ =~= old(self).model()@ + old(other).model()@) by {
                assert forall|j: int| 0 <= j < total_len implies final(self).model()@[j] == (
                old(self).model()@ + old(other).model()@)[j] by {
                    if j < len {
                        assert(grown@[j] == grown.slots[j]->0);
                    }
                }
            }
            assert(final(other).model()@ =~= Seq::<T>::empty());
        }
    }
}

impl<T, A: CommonVec<T>, V: CommonVec<T>> Append<T, V> for A {
}

} // verus!
