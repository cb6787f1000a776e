//! Modules: what a module is, how it is described, found and loaded.

pub mod finder;
pub mod loader;
pub mod object;
pub mod spec;
