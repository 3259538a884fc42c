//! What the world needs to know of a component type to keep columns of unrelated
//! types in one table.

use crate::collections::sparse_vec::SparseVec;
use vstd::prelude::*;

verus! {

/// A column whose element type is not part of its own type: a value that is, inside,
/// a column of exactly one component type, and knows the key of that type. What an
/// implementation does not state of `type_key` and `cleared_from` is left open.
pub trait ErasedColumn: Sized {
    /// The key of the component type whose column this is.
    open spec fn type_key(&self) -> u64 {
        arbitrary()
    }

    /// This column is `before` with the slot at `index` cleared: a column of the
    /// same type and length, with every other slot as it was.
    open spec fn cleared_from(&self, before: &Self, index: int) -> bool {
        arbitrary()
    }

    /// Clears the slot at `index`, whatever the type of the components; out of
    /// range, nothing changes.
    fn remove_slot(&mut self, index: usize)
        ensures
            final(self).type_key() == old(self).type_key(),
            final(self).cleared_from(old(self), index as int),
    ;
}

/// Represents a component that can be attached to an entity.
///
/// A component type has a key, which is what the world files its column under, and
/// an erased column type, which is what the world stores. Erasing a column and
/// casting it back down give the same column; casting down to any other component
/// type gives nothing.
pub trait Component: Sized {
    /// The erased form under which columns of this type are stored.
    type Erased: ErasedColumn;

    /// The key of this component type.
    open spec fn spec_type_key() -> u64 {
        arbitrary()
    }

    /// The slots of `erased`, read as a column of this type. Meaningful where
    /// `erased` has the key of this type.
    open spec fn column_of(erased: &Self::Erased) -> Seq<Option<Self>> {
        arbitrary()
    }

    /// The key of this component type.
    fn type_key() -> (key: u64)
        ensures
            key == Self::spec_type_key(),
    ;

    /// Erases the element type of `column`.
    fn erase(column: SparseVec<Self>) -> (erased: Self::Erased)
        ensures
            erased.type_key() == Self::spec_type_key(),
            Self::column_of(&erased) == column@,
    ;

    /// The column inside `erased`, if it is a column of this type.
    fn downcast(erased: &Self::Erased) -> (column: Option<&SparseVec<Self>>)
        ensures
            column is Some <==> erased.type_key() == Self::spec_type_key(),
            column is Some ==> column->0@ == Self::column_of(erased),
    ;

    /// The column inside `erased`, for writing, if it is a column of this type.
    /// `erased` keeps its key and holds whatever the column holds when the borrow
    /// ends.
    fn downcast_mut(erased: &mut Self::Erased) -> (column: Option<&mut SparseVec<Self>>)
        ensures
            column is Some <==> old(erased).type_key() == Self::spec_type_key(),
            column is None ==> *final(erased) == *old(erased),
            column is Some ==> {
                &&& column->0@ == Self::column_of(old(erased))
                &&& final(erased).type_key() == old(erased).type_key()
                &&& Self::column_of(final(erased)) == final(column->0)@
            },
    ;
}

} // verus!
