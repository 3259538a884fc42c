//! Entities, components and systems.
//!
//! An entity is a generational id with no data of its own. A component is a value
//! attached to an entity; components of one type live in one column, indexed by the
//! entity's slot. A system is a function that walks the occupied slots of one
//! column, or of two columns in lock-step.

pub mod borrow;
pub mod component;
pub mod iter;
pub mod system;
pub mod world;

pub use borrow::{BorrowError, BorrowLocks, BorrowState};
pub use component::{Component, ErasedColumn};
pub use iter::{
    FromWorld, PairComponentsRefIter, PairComponentsRefIterMut, SingleComponentExclusiveIter,
    SingleComponentExclusiveIterMut, SingleComponentRefIter, SingleComponentRefIterMut,
};
pub use system::System;
pub use world::{Components, World, WorldBuilder};
