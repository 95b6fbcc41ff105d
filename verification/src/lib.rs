//! A minimal behavior-tree evaluator.
//!
//! A behavior tree composes leaf behaviors (actions and conditions) into
//! composite control nodes (sequence, selector, parallel) and re-evaluates
//! the whole tree once per logic tick. Every node produces one of three
//! statuses: `Success`, `Failure`, or `Running`; the `Running` value is the
//! only mechanism for a tree to span multiple ticks.
//!
//! The heart of the crate is [`tree::BTNode::tick`], whose postcondition pins
//! the returned status to the pure evaluation model [`tree::eval`], and the
//! lemmas in [`laws`], which state how each composite folds its children's
//! statuses.

pub mod algebra;
pub mod laws;
pub mod status;
pub mod tree;

pub use status::BTStatus;
pub use status::ParallelMode;
pub use tree::BTNode;
pub use tree::Behavior;
