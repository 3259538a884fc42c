//! A column of one of the built-in component types, with the element type erased.

use crate::collections::sparse_vec::{cleared, SparseVec};
use crate::ecs::component::{Component, ErasedColumn};
use vstd::prelude::*;

verus! {

/// A column of one of the integer component types: one variant for each of them.
pub enum IntegerColumn {
    I32(SparseVec<i32>),
    I64(SparseVec<i64>),
    U32(SparseVec<u32>),
    U64(SparseVec<u64>),
}

/// Type-erased version of [`SparseVec<T>`], for the integer component types, which
/// need no declaration.
pub struct TypeErasedSparseVec {
    pub inner: IntegerColumn,
}

impl ErasedColumn for TypeErasedSparseVec {
    open spec fn type_key(&self) -> u64 {
        match self.inner {
            IntegerColumn::I32(_) => 0,
            IntegerColumn::I64(_) => 1,
            IntegerColumn::U32(_) => 2,
            IntegerColumn::U64(_) => 3,
        }
    }

    open spec fn cleared_from(&self, before: &Self, index: int) -> bool {
        match (self.inner, before.inner) {
            (IntegerColumn::I32(after), IntegerColumn::I32(before)) => after@ == cleared(
                before@,
                index,
            ),
            (IntegerColumn::I64(after), IntegerColumn::I64(before)) => after@ == cleared(
                before@,
                index,
            ),
            (IntegerColumn::U32(after), IntegerColumn::U32(before)) => after@ == cleared(
                before@,
                index,
            ),
            (IntegerColumn::U64(after), IntegerColumn::U64(before)) => after@ == cleared(
                before@,
                index,
            ),
            _ => false,
        }
    }

    fn remove_slot(&mut self, index: usize) {
        match &mut self.inner {
            IntegerColumn::I32(column) => {
                column.remove(index);
            },
            IntegerColumn::I64(column) => {
                column.remove(index);
            },
            IntegerColumn::U32(column) => {
                column.remove(index);
            },
            IntegerColumn::U64(column) => {
                column.remove(index);
            },
        }
    }
}

impl TypeErasedSparseVec {
    /// Erases the element type of `value`.
    pub fn from<T: Component<Erased = TypeErasedSparseVec>>(value: SparseVec<T>) -> (erased: Self)
        ensures
            erased.type_key() == T::spec_type_key(),
            T::column_of(&erased) == value@,
    {
        T::erase(value)
    }

    /// The column inside, if it is a column of `T`.
    pub fn downcast<T: Component<Erased = TypeErasedSparseVec>>(&self) -> (column: Option<
        &SparseVec<T>,
    >)
        ensures
            column is Some <==> self.type_key() == T::spec_type_key(),
            column is Some ==> column->0@ == T::column_of(self),
    {
        T::downcast(self)
    }

    /// The column inside, for writing, if it is a column of `T`. This value keeps
    /// its type and holds whatever the column holds when the borrow ends.
    pub fn downcast_mut<T: Component<Erased = TypeErasedSparseVec>>(&mut self) -> (column: Option<
        &mut SparseVec<T>,
    >)
        ensures
            column is Some <==> old(self).type_key() == T::spec_type_key(),
            column is None ==> *final(self) == *old(self),
            column is Some ==> {
                &&& column->0@ == T::column_of(old(self))
                &&& final(self).type_key() == old(self).type_key()
                &&& T::column_of(final(self)) == final(column->0)@
            },
    {
        T::downcast_mut(self)
    }
}

impl Component for i32 {
    type Erased = TypeErasedSparseVec;

    open spec fn spec_type_key() -> u64 {
        0
    }

    open spec fn column_of(erased: &TypeErasedSparseVec) -> Seq<Option<i32>> {
        match erased.inner {
            IntegerColumn::I32(column) => column@,
            _ => Seq::empty(),
        }
    }

    fn type_key() -> (key: u64) {
        0
    }

    fn erase(column: SparseVec<i32>) -> (erased: TypeErasedSparseVec) {
        TypeErasedSparseVec { inner: IntegerColumn::I32(column) }
    }

    fn downcast(erased: &TypeErasedSparseVec) -> (column: Option<&SparseVec<i32>>) {
        match &erased.inner {
            IntegerColumn::I32(column) => Some(column),
            _ => None,
        }
    }

    fn downcast_mut(erased: &mut TypeErasedSparseVec) -> (column: Option<&mut SparseVec<i32>>) {
        match &mut erased.inner {
            IntegerColumn::I32(column) => Some(column),
            _ => None,
        }
    }
}

impl Component for i64 {
    type Erased = TypeErasedSparseVec;

    open spec fn spec_type_key() -> u64 {
        1
    }

    open spec fn column_of(erased: &TypeErasedSparseVec) -> Seq<Option<i64>> {
        match erased.inner {
            IntegerColumn::I64(column) => column@,
            _ => Seq::empty(),
        }
    }

    fn type_key() -> (key: u64) {
        1
    }

    fn erase(column: SparseVec<i64>) -> (erased: TypeErasedSparseVec) {
        TypeErasedSparseVec { inner: IntegerColumn::I64(column) }
    }

    fn downcast(erased: &TypeErasedSparseVec) -> (column: Option<&SparseVec<i64>>) {
        match &erased.inner {
            IntegerColumn::I64(column) => Some(column),
            _ => None,
        }
    }

    fn downcast_mut(erased: &mut TypeErasedSparseVec) -> (column: Option<&mut SparseVec<i64>>) {
        match &mut erased.inner {
            IntegerColumn::I64(column) => Some(column),
            _ => None,
        }
    }
}

impl Component for u32 {
    type Erased = TypeErasedSparseVec;

    open spec fn spec_type_key() -> u64 {
        2
    }

    open spec fn column_of(erased: &TypeErasedSparseVec) -> Seq<Option<u32>> {
        match erased.inner {
            IntegerColumn::U32(column) => column@,
            _ => Seq::empty(),
        }
    }

    fn type_key() -> (key: u64) {
        2
    }

    fn erase(column: SparseVec<u32>) -> (erased: TypeErasedSparseVec) {
        TypeErasedSparseVec { inner: IntegerColumn::U32(column) }
    }

    fn downcast(erased: &TypeErasedSparseVec) -> (column: Option<&SparseVec<u32>>) {
        match &erased.inner {
            IntegerColumn::U32(column) => Some(column),
            _ => None,
        }
    }

    fn downcast_mut(erased: &mut TypeErasedSparseVec) -> (column: Option<&mut SparseVec<u32>>) {
        match &mut erased.inner {
            IntegerColumn::U32(column) => Some(column),
            _ => None,
        }
    }
}

impl Component for u64 {
    type Erased = TypeErasedSparseVec;

    open spec fn spec_type_key() -> u64 {
        3
    }

    open spec fn column_of(erased: &TypeErasedSparseVec) -> Seq<Option<u64>> {
        match erased.inner {
            IntegerColumn::U64(column) => column@,
            _ => Seq::empty(),
        }
    }

    fn type_key() -> (key: u64) {
        3
    }

    fn erase(column: SparseVec<u64>) -> (erased: TypeErasedSparseVec) {
        TypeErasedSparseVec { inner: IntegerColumn::U64(column) }
    }

    fn downcast(erased: &TypeErasedSparseVec) -> (column: Option<&SparseVec<u64>>) {
        match &erased.inner {
            IntegerColumn::U64(column) => Some(column),
            _ => None,
        }
    }

    fn downcast_mut(erased: &mut TypeErasedSparseVec) -> (column: Option<&mut SparseVec<u64>>) {
        match &mut erased.inner {
            IntegerColumn::U64(column) => Some(column),
            _ => None,
        }
    }
}

} // verus!
