//! Loop trees of a program: loops, array references, blocks and branches,
//! with the bounds of loops and the subscripts of array references.
//!
//! The nodes of a tree live in a [`ast::LoopTree`] and refer to each other by
//! [`ast::NodeId`]; a node may be reached from several parents, and each node
//! remembers the loop it was last attached to.

pub mod callbacks;
pub mod bound;
pub mod ast;
pub mod laws;
pub mod structure;
pub mod bound_laws;
pub mod structure_laws;
