//! The description of a module.
use vstd::prelude::*;

use crate::importer::builtinimporter::BuiltinImporter;

verus! {

/// What is known of a module before it is loaded: its name, the loader that
/// runs it, and the places where its source may be found.
pub struct ModuleSpec {
    /// The module's name.
    pub name: String,
    /// The loader that creates and runs the module.
    pub loader: Box<BuiltinImporter>,
    /// Where the loader may look for the module's source.
    pub module_search_locations: Vec<String>,
}

impl ModuleSpec {
    pub fn new(name: String, loader: Box<BuiltinImporter>, module_search_locations: Vec<String>) -> (r: Self)
        ensures
            r.name == name,
            r.loader == loader,
            r.module_search_locations == module_search_locations,
    {
        Self { name, loader, module_search_locations }
    }
}

} // verus!
