//! The collections the engine is built from; each can be used on its own.

pub mod generational_vec;
pub mod sparse_vec;
pub mod type_erased_sparse_vec;
pub mod typed_component_array;

pub use generational_vec::{GenerationalId, GenerationalVec};
pub use sparse_vec::SparseVec;
pub use type_erased_sparse_vec::TypeErasedSparseVec;
pub use typed_component_array::ComponentArray;
