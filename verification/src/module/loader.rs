//! Loading modules.
use vstd::prelude::*;

use crate::module::object::ModuleObject;
use crate::module::spec::ModuleSpec;
use crate::module::object::ModuleError;

verus! {

/// The interface of module loaders.
///
/// Loaders can be swapped without changing the rest of the system: each
/// decides how a module is created and how its code is run. Reading the code
/// from where it is stored is left to the caller, which hands it over.
pub trait ModuleLoader {
    /// Creates a module object based on the given module specification.
    fn create_module(&self, spec: ModuleSpec) -> ModuleObject;

    /// Runs the module's `code` and keeps the bindings it makes in the
    /// module's scope.
    fn exec_module(&mut self, module: &mut ModuleObject, code: &str) -> Result<(), ModuleError>;
}

} // verus!
