//! A singly-linked LIFO stack of integers with strict single ownership.
//!
//! The stack is a chain of heap-allocated nodes, each owning its successor.
//! Every mutation moves ownership explicitly through a take-and-replace step,
//! and teardown detaches one node per loop iteration so that dropping a long
//! stack never builds a deep chain of nested destructor calls.

pub mod laws;
pub mod stack;
