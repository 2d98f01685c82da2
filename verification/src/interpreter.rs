//! Evaluation: run-time values, the evaluation context, the big-step
//! semantics, and the tree-walking evaluator.

pub mod context;
pub mod evaluator;
pub mod laws;
pub mod semantics;
