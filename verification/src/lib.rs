//! A singly linked list built from individually owned nodes.
//!
//! Each node owns its successor through an optional boxed link, so every
//! node is released exactly once: either by the removal operation that
//! unlinks it, or when the remaining chain goes out of scope.

pub mod laws;
pub mod list;
pub mod node;
