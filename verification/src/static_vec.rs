//! A container whose buffer is a fixed number of slots held inside the
//! container value itself. It never allocates and never moves its buffer.

use crate::storage::{CommonVec, Model, TryReserveError};
use vstd::prelude::*;

verus! {

/// `core::array::from_fn` builds an array by calling `f` once for each
/// index, from the first to the last: the element at index `i` is something
/// that `f` returns for `i`.
pub assume_specification<T, const N: usize, F>[ core::array::from_fn ](f: F) -> (array: [T; N]) where
    F: FnMut(usize) -> T,

    requires
        forall|i: usize| i < N ==> call_requires(f, (i,)),
    ensures
        forall|i: int| 0 <= i < N ==> call_ensures(f, (i as usize,), #[trigger] array@[i]),
;

/// A slot that holds no element, whatever its index.
fn empty_slot<T>(_index: usize) -> (slot: Option<T>)
    ensures
        slot is None,
{
    None
}

/// A contiguous container of `T` with room for `C` elements, stored inline.
pub struct StaticVec<T, const C: usize> {
    len: usize,
    buffer: [Option<T>; C],
}

impl<T, const C: usize> View for StaticVec<T, C> {
    type V = Seq<T>;

    /// The live elements, in order.
    open spec fn view(&self) -> Seq<T> {
        self.model()@
    }
}

impl<T, const C: usize> StaticVec<T, C> {
    /// Constructs a new, empty `StaticVec<T, C>`.
    pub fn new() -> (v: Self)
        ensures
            v.model().wf(),
            v.model().capacity() == C,
            v@ == Seq::<T>::empty(),
    {
        let v = Self { len: 0, buffer: core::array::from_fn(empty_slot) };
        assert(v@ =~= Seq::<T>::empty());
        v
    }

    /// Constructs a new, empty `StaticVec<T, C>`.
    ///
    /// The capacity is `C`, whatever the argument: the function is here so
    /// that the type can stand in for containers that allocate.
    pub fn with_capacity(_capacity: usize) -> (v: Self)
        ensures
            v.model().wf(),
            v.model().capacity() == C,
            v@ == Seq::<T>::empty(),
    {
        Self::new()
    }

    /// The buffer always has `C` slots.
    pub proof fn lemma_capacity(&self)
        ensures
            self.model().capacity() == C,
    {
    }
}

impl<T, const C: usize> CommonVec<T> for StaticVec<T, C> {
    closed spec fn model(&self) -> Model<T> {
        Model { slots: self.buffer@, len: self.len as nat }
    }

    /// A request is met exactly when the live elements and the additional
    /// ones fit in the `C` slots.
    open spec fn can_reserve(&self, additional: nat) -> bool {
        self@.len() + additional <= C
    }

    fn capacity(&self) -> (capacity: usize)
        ensures
            capacity == C,
    {
        C
    }

    fn try_reserve(&mut self, additional: usize) -> (result: Result<(), TryReserveError>)
        ensures
            final(self).model() == old(self).model(),
    {
        if additional <= C - self.len {
            Ok(())
        } else {
            Err(TryReserveError)
        }
    }

    fn as_ptr(&self) -> (buf: &[Option<T>]) {
        &self.buffer
    }

    fn as_mut_ptr(&mut self) -> (buf: &mut [Option<T>]) {
        &mut self.buffer
    }

    fn set_len(&mut self, new_len: usize) {
        self.len = new_len;
    }

    fn len(&self) -> (len: usize) {
        self.len
    }
}

} // verus!
