//! Systems: functions that the world can run on its columns.

use crate::ecs::component::ErasedColumn;
use crate::ecs::iter::FromWorld;
use crate::ecs::world::World;
use vstd::prelude::*;

verus! {

/// Keeps [`System`] closed: it is implemented for functions of one iterator, and for
/// nothing else.
pub trait Sealed<'world, T> {

}

impl<'world, T, F: Fn(T)> Sealed<'world, T> for F {

}

/// Represents a system that can be executed on a world.
///
/// This trait is not meant to be implemented by the user: every function whose one
/// parameter is an iterator that can be made from a world is a system.
pub trait System<'world, E: ErasedColumn, T: FromWorld<'world, E>>: Sealed<'world, T> + Fn(
    T,
) + Sized {
    /// Makes the iterator from the world and calls the function on it, once. The
    /// function may write components of the columns that its iterator borrows for
    /// writing; the entities, the component types and the other columns of the
    /// world stay as they are.
    fn execute(&self, world: &'world mut World<E>)
        requires
            old(world).wf(),
            T::admitted_by(old(world)),
            forall|iter: T| iter.starts_on(old(world)) ==> call_requires(*self, (iter,)),
        ensures
            final(world).wf(),
            final(world).entities == old(world).entities,
            final(world).components.same_outside(&old(world).components, T::writes(old(world))),
            exists|iter: T| iter.starts_on(old(world)) && call_ensures(*self, (iter,), ()),
    ;
}

impl<'world, E: ErasedColumn, T: FromWorld<'world, E>, F: Fn(T)> System<'world, E, T> for F {
    fn execute(&self, world: &'world mut World<E>) {
        let iter = T::from_world(world);
        let ghost made = iter;
        (*self)(iter);
        assert(made.starts_on(old(world)) && call_ensures(*self, (made,), ()));
    }
}

} // verus!
