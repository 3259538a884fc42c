//! A column of components of one type.

use crate::collections::sparse_vec::{cleared, slot_at, written, Iter, IterMut, SparseVec};
use vstd::prelude::*;

verus! {

/// The components of one type, each in the slot of the entity it belongs to.
pub struct ComponentArray<T> {
    data: SparseVec<T>,
}

impl<T> View for ComponentArray<T> {
    type V = Seq<Option<T>>;

    closed spec fn view(&self) -> Seq<Option<T>> {
        self.data@
    }
}

impl<T> ComponentArray<T> {
    /// An array without components.
    pub fn new() -> (array: Self)
        ensures
            array@ == Seq::<Option<T>>::empty(),
    {
        ComponentArray { data: SparseVec::new() }
    }

    /// Puts `component` in the slot at `index`, growing the array with empty slots
    /// as needed, and returns the component that was there before, if any.
    pub fn replace(&mut self, index: usize, component: T) -> (previous: Option<T>)
        requires
            index < usize::MAX,
        ensures
            final(self)@ == written(old(self)@, index as int, component),
            previous == slot_at(old(self)@, index as int),
    {
        self.data.replace(index, component)
    }

    /// Puts `component` in the slot at `index`, growing the array with empty slots
    /// as needed. What was there before is dropped.
    pub fn insert(&mut self, index: usize, component: T)
        requires
            index < usize::MAX,
        ensures
            final(self)@ == written(old(self)@, index as int, component),
    {
        self.data.replace(index, component);
    }

    /// Empties the slot at `index`; the array keeps its length. Out of range,
    /// nothing changes.
    pub fn remove(&mut self, index: usize)
        ensures
            final(self)@ == cleared(old(self)@, index as int),
    {
        self.data.remove(index);
    }

    /// Returns an iterator over the components, in ascending order of their slots.
    pub fn iter(&self) -> (iter: Iter<'_, T>)
        ensures
            iter.wf(),
            iter.slots() == self@,
            iter.position() == 0,
    {
        self.data.iter()
    }

    /// The slots of the array, empty ones included, in order.
    pub fn data_iter(&self) -> (slots: &[Option<T>])
        ensures
            slots@ == self@,
    {
        self.data.data_slice()
    }

    /// Returns a mutable iterator over the components, in ascending order of their
    /// slots. The array keeps what is written through it.
    pub fn iter_mut(&mut self) -> (iter: IterMut<'_, T>)
        ensures
            !iter.exhausted(),
            iter.remaining() == old(self)@,
            iter.position() == 0,
            final(iter.borrowed())@ == final(self)@,
    {
        self.data.iter_mut()
    }

    /// The slots of the array, empty ones included, in order, for writing. The
    /// array keeps what the slots hold when the borrow ends.
    pub fn data_iter_mut(&mut self) -> (slots: &mut [Option<T>])
        ensures
            slots@ == old(self)@,
            final(slots)@ == final(self)@,
    {
        self.data.data_mut_slice()
    }
}

impl<T> Default for ComponentArray<T> {
    fn default() -> (array: Self)
        ensures
            array@ == Seq::<Option<T>>::empty(),
    {
        Self::new()
    }
}

} // verus!
