//! A persistent byte sequence.
//!
//! Every edit returns a new sequence and leaves the one it was applied to
//! untouched; both share the parts of the tree that the edit did not reach.

mod balance;
pub mod buffer;
pub mod cursor;
mod edit;
mod encode;
pub mod laws;
pub mod model;
mod node;

pub use buffer::FlexVector;
pub use cursor::{FlexVectorIter, FlexVectorRIter};
pub use node::LEAF_CAPACITY;
