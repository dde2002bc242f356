//! A scalar computation-graph engine with reverse-mode gradient propagation.
//!
//! A [`arena::GraphArena`] owns an append-only sequence of nodes. Each node
//! carries a scalar value (an IEEE 754 binary64 bit pattern, see [`fp`]), an
//! accumulated gradient, an operation kind, and the indices of its operands.
//! Construction calls append nodes and compute their forward value eagerly;
//! [`arena::GraphArena::backward`] walks the nodes in reverse creation order
//! and fills every node's gradient by the chain rule.

pub mod arena;
pub mod elem;
pub mod fp;
pub mod laws;
pub mod mlp;
