//! Locating modules.
use vstd::prelude::*;

verus! {

/// Locates the metadata or the source of a module given its identifier: by
/// searching file system paths, package registries or remote repositories.
pub trait ModuleFinder {
    fn find_module();
}

} // verus!
