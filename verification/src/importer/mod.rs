//! The loaders of modules.

pub mod builtinimporter;
