use vstd::prelude::*;

use crate::package::PackageData;

verus! {

/// What identifies a registry to a storage backend: its name, and the
/// namespace that scopes every storage object kept for it.
pub struct RegistryDescriptor {
    pub name: String,
    pub storage_namespace: String,
}

impl RegistryDescriptor {
    pub fn new(name: String, storage_namespace: String) -> (r: Self)
        ensures
            r.name@ == name@,
            r.storage_namespace@ == storage_namespace@,
    {
        RegistryDescriptor { name, storage_namespace }
    }
}

/// A registry flavour: it names its namespace and turns uploaded bytes into
/// package data. Implemented by the code of each registry.
pub trait PackageRegistry {
    /// The registry's name and storage namespace.
    fn descriptor(&self) -> RegistryDescriptor;

    /// Parses an uploaded artifact; the error text is opaque to the backends.
    fn parse_package_data(&self, data: Vec<u8>) -> Result<PackageData, String>;
}

} // verus!
