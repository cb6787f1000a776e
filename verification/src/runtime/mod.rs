//! The tree-walking interpreter of Whisp.

pub mod error;
pub mod builtin;
pub mod semantics;
pub mod evaluator;
pub mod interpreter;
pub mod laws;
