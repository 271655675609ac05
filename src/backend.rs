use vstd::prelude::*;

use crate::error::PackageBackendError;
use crate::memory::{
    infos_of, infos_view, matching_infos, removed, replaced, saved, stored, MemoryInitializer,
    MemoryInstance, PackageBackendMemory,
};
use crate::package::{DataView, PackageData, PackageInfo, PackageQuery};

verus! {

/// Opens a session on a storage engine.
pub trait StorageBackendConnector: Sized {
    /// What an open session is, before a namespace is provisioned on it.
    type Initializer;

    fn connect(self) -> Result<Self::Initializer, PackageBackendError>;
}

/// The operations of a live backend bound to one namespace, over the
/// packages of that namespace. A backend may fail for reasons of its own,
/// but a failed operation changes nothing, a successful one changes exactly
/// what its contract says, and the errors that the rules of the store call
/// for come as stated.
pub trait StorageBackend {
    /// The backend's internal invariant.
    spec fn inv(&self) -> bool;

    /// The packages of the namespace, in the order in which they were saved.
    spec fn packages(&self) -> Seq<DataView>;

    fn save_package(&mut self, data: PackageData) -> (r: Result<PackageInfo, PackageBackendError>)
        requires
            old(self).inv(),
        ensures
            final(self).inv(),
            r matches Ok(x) ==> x@ == data@.1 && saved(old(self).packages(), data@) == Some(
                final(self).packages(),
            ),
            saved(old(self).packages(), data@) is None ==> r == Err::<PackageInfo, _>(
                PackageBackendError::Constraint,
            ),
            r is Err ==> final(self).packages() == old(self).packages(),
    ;

    fn all_packages(&self) -> (r: Result<Vec<PackageInfo>, PackageBackendError>)
        requires
            self.inv(),
        ensures
            r matches Ok(v) ==> infos_view(v@) == infos_of(self.packages()),
    ;

    fn count_packages(&self) -> (r: Result<usize, PackageBackendError>)
        requires
            self.inv(),
        ensures
            r matches Ok(n) ==> n == self.packages().len(),
    ;

    fn find_packages(&self, query: &PackageQuery) -> (r: Result<Vec<PackageInfo>, PackageBackendError>)
        requires
            self.inv(),
        ensures
            r matches Ok(v) ==> infos_view(v@) == matching_infos(self.packages(), query@),
    ;

    fn get_package(&self, info: &PackageInfo) -> (r: Result<PackageData, PackageBackendError>)
        requires
            self.inv(),
        ensures
            r matches Ok(d) ==> stored(self.packages(), info@) == Some(d@),
            stored(self.packages(), info@) is None ==> r == Err::<PackageData, _>(
                PackageBackendError::NotFound,
            ),
    ;

    fn remove_package(&mut self, info: &PackageInfo) -> (r: Result<PackageInfo, PackageBackendError>)
        requires
            old(self).inv(),
        ensures
            final(self).inv(),
            r matches Ok(x) ==> x@ == (stored(old(self).packages(), info@)->0).1 && removed(
                old(self).packages(),
                info@,
            ) == Some(final(self).packages()),
            removed(old(self).packages(), info@) is None ==> r == Err::<PackageInfo, _>(
                PackageBackendError::NotFound,
            ),
            r is Err ==> final(self).packages() == old(self).packages(),
    ;

    fn replace_package(&mut self, data: PackageData) -> (r: Result<PackageInfo, PackageBackendError>)
        requires
            old(self).inv(),
        ensures
            final(self).inv(),
            r matches Ok(x) ==> x@ == data@.1 && replaced(old(self).packages(), data@) == Some(
                final(self).packages(),
            ),
            stored(old(self).packages(), data@.1) is None ==> r == Err::<PackageInfo, _>(
                PackageBackendError::NotFound,
            ),
            r is Err ==> final(self).packages() == old(self).packages(),
    ;
}

impl StorageBackendConnector for PackageBackendMemory {
    type Initializer = MemoryInitializer;

    fn connect(self) -> Result<MemoryInitializer, PackageBackendError> {
        PackageBackendMemory::connect(self)
    }
}

impl StorageBackend for MemoryInstance {
    open spec fn inv(&self) -> bool {
        self.wf()
    }

    open spec fn packages(&self) -> Seq<DataView> {
        self.rows()
    }

    fn save_package(&mut self, data: PackageData) -> (r: Result<PackageInfo, PackageBackendError>) {
        self.save(data)
    }

    fn all_packages(&self) -> (r: Result<Vec<PackageInfo>, PackageBackendError>) {
        Ok(self.all())
    }

    fn count_packages(&self) -> (r: Result<usize, PackageBackendError>) {
        Ok(self.count())
    }

    fn find_packages(&self, query: &PackageQuery) -> (r: Result<Vec<PackageInfo>, PackageBackendError>) {
        Ok(self.find(query))
    }

    fn get_package(&self, info: &PackageInfo) -> (r: Result<PackageData, PackageBackendError>) {
        self.get(info)
    }

    fn remove_package(&mut self, info: &PackageInfo) -> (r: Result<PackageInfo, PackageBackendError>) {
        self.remove(info)
    }

    fn replace_package(&mut self, data: PackageData) -> (r: Result<PackageInfo, PackageBackendError>) {
        self.replace(data)
    }
}

} // verus!
