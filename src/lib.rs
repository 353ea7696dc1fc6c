//! Positional index for replicated sequences: an order-statistics tree that maps
//! positions to `(OpId, value)` pairs, together with the identifier types it stores.

pub mod protocol;
pub mod sequence_tree;

pub use protocol::{ActorId, OpId};
pub use sequence_tree::{SequenceTree, SequenceTreeNode};

