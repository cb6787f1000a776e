//! The LL parser of Whisp.

pub mod error;
pub mod grammar;
pub mod ll_parser;
pub mod statements;
pub mod expressions;
pub mod functions;
pub mod control_flow;
pub mod mock;
pub mod laws;
