//! Whisp: a small scripting language with a lexer, an LL parser and a
//! tree-walking interpreter, specified and verified with Verus.

pub mod text;
pub mod token;
pub mod lexer;
pub mod ops;
pub mod ast;
pub mod tree;
pub mod symbol;
pub mod parser;
pub mod object;
pub mod value;
pub mod environment;
pub mod runtime;
pub mod whisp;
pub mod cli;
pub mod interpreter;
pub mod module;
pub mod importer;
