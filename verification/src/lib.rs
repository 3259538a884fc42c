//! A small entity-component storage engine.
//!
//! Entities are generational handles, components are values stored by type in
//! sparse columns indexed by an entity's slot, and systems are functions that
//! walk one column, or two columns in lock-step.

pub mod collections;
pub mod ecs;
