use serval::backend::{StorageBackend, StorageBackendConnector};
use serval::error::PackageBackendError;
use serval::memory::{select_matching, MemoryInstance, MemoryStorage, PackageBackendMemory};
use serval::package::{PackageData, PackageInfo, PackageQuery};
use serval::registry::RegistryDescriptor;

fn s(x: &str) -> String {
    x.to_string()
}

fn pkg_data() -> PackageData {
    let meta = vec![(s("foo"), s("foo")), (s("bar"), s("bar"))];
    PackageData::new(
        vec![0, 1, 2, 3, 4],
        PackageInfo::new(s("foopkg"), s("1.0.0"), Some(meta)),
    )
}

fn identity(name: &str, version: &str) -> PackageInfo {
    PackageInfo::new(s(name), s(version), None)
}

fn open(storage: MemoryStorage, ns: &str) -> MemoryInstance {
    let init = PackageBackendMemory::new(storage).connect().unwrap();
    init.init(RegistryDescriptor::new(s(ns), s(ns))).unwrap()
}

fn get_backend() -> MemoryInstance {
    open(MemoryStorage::new(), "temp")
}

#[test]
fn init_backend() {
    let backend = get_backend();
    assert_eq!(backend.count(), 0);
    assert!(backend.all().is_empty());
}

#[test]
fn save() {
    let mut backend = get_backend();
    let pkg = pkg_data();
    assert_eq!(backend.count(), 0);
    let info = backend.save(pkg).unwrap();
    assert_eq!(info.name, "foopkg");
    assert_eq!(backend.count(), 1);
}

#[test]
fn saved_package_reads_back() {
    let mut backend = get_backend();
    backend.save(pkg_data()).unwrap();
    assert_eq!(backend.count(), 1);
    let got = backend.get(&identity("foopkg", "1.0.0")).unwrap();
    assert_eq!(got.data, vec![0, 1, 2, 3, 4]);
    let meta = got.info.meta.unwrap();
    assert_eq!(meta.len(), 2);
    assert!(meta.contains(&(s("foo"), s("foo"))));
    assert!(meta.contains(&(s("bar"), s("bar"))));
}

#[test]
fn duplicate_identity_is_a_constraint_error() {
    let mut backend = get_backend();
    assert!(backend.save(pkg_data()).is_ok());
    let second = backend.save(pkg_data());
    assert!(matches!(second, Err(PackageBackendError::Constraint)));
    assert_eq!(backend.count(), 1);
}

#[test]
fn same_identity_other_bytes_saves_once() {
    let mut backend = get_backend();
    let a = PackageData::new(vec![1], identity("p", "1"));
    let b = PackageData::new(vec![2, 2], identity("p", "1"));
    let ra = backend.save(a);
    let rb = backend.save(b);
    assert!(ra.is_ok());
    assert!(matches!(rb, Err(PackageBackendError::Constraint)));
    assert_eq!(backend.get(&identity("p", "1")).unwrap().data, vec![1]);
}

#[test]
fn find_by_name() {
    let mut backend = get_backend();
    backend.save(pkg_data()).unwrap();
    backend.save(PackageData::new(vec![9], identity("other", "1.0.0"))).unwrap();
    let found = backend.find(&PackageQuery::new(Some(s("foopkg")), None, None));
    assert_eq!(found.len(), 1);
    assert_eq!(found[0].name, "foopkg");
    assert_eq!(found[0].version, "1.0.0");
}

#[test]
fn find_by_meta_and_version() {
    let mut backend = get_backend();
    backend.save(pkg_data()).unwrap();
    backend.save(PackageData::new(vec![9], identity("foopkg", "2.0.0"))).unwrap();
    let by_meta = backend.find(&PackageQuery::new(None, None, Some(vec![(s("bar"), s("bar"))])));
    assert_eq!(by_meta.len(), 1);
    assert_eq!(by_meta[0].version, "1.0.0");
    let wrong_value = backend.find(&PackageQuery::new(None, None, Some(vec![(s("bar"), s("baz"))])));
    assert!(wrong_value.is_empty());
    let by_version = backend.find(&PackageQuery::new(None, Some(s("2.0.0")), None));
    assert_eq!(by_version.len(), 1);
    let all = backend.find(&PackageQuery::new(None, None, None));
    assert_eq!(all.len(), 2);
    let none = backend.find(&PackageQuery::new(Some(s("nope")), None, None));
    assert!(none.is_empty());
}

#[test]
fn remove_then_get_is_not_found() {
    let mut backend = get_backend();
    backend.save(pkg_data()).unwrap();
    let removed = backend.remove(&identity("foopkg", "1.0.0")).unwrap();
    assert_eq!(removed.name, "foopkg");
    assert_eq!(removed.version, "1.0.0");
    assert_eq!(removed.meta.map(|m| m.len()), Some(2));
    assert_eq!(backend.count(), 0);
    assert!(matches!(
        backend.get(&identity("foopkg", "1.0.0")),
        Err(PackageBackendError::NotFound)
    ));
    assert!(matches!(
        backend.remove(&identity("foopkg", "1.0.0")),
        Err(PackageBackendError::NotFound)
    ));
}

#[test]
fn count_moves_by_one() {
    let mut backend = get_backend();
    backend.save(PackageData::new(vec![], identity("a", "1"))).unwrap();
    assert_eq!(backend.count(), 1);
    backend.save(PackageData::new(vec![], identity("a", "2"))).unwrap();
    assert_eq!(backend.count(), 2);
    backend.remove(&identity("a", "1")).unwrap();
    assert_eq!(backend.count(), 1);
}

#[test]
fn failed_metadata_leaves_nothing() {
    let mut backend = get_backend();
    backend.save(pkg_data()).unwrap();
    let meta = vec![(s("k"), s("1")), (s("k"), s("2"))];
    let bad = PackageData::new(vec![7], PackageInfo::new(s("bad"), s("1"), Some(meta)));
    assert!(matches!(backend.save(bad), Err(PackageBackendError::Constraint)));
    assert_eq!(backend.count(), 1);
    assert!(matches!(backend.get(&identity("bad", "1")), Err(PackageBackendError::NotFound)));
}

#[test]
fn init_twice_keeps_rows() {
    let mut backend = get_backend();
    backend.save(pkg_data()).unwrap();
    let storage = backend.close();
    let again = open(storage, "temp");
    assert_eq!(again.count(), 1);
    assert_eq!(again.get(&identity("foopkg", "1.0.0")).unwrap().data, vec![0, 1, 2, 3, 4]);
}

#[test]
fn namespaces_are_isolated() {
    let mut npm = open(MemoryStorage::new(), "npm");
    npm.save(pkg_data()).unwrap();
    let mut pip = open(npm.close(), "pip");
    assert_eq!(pip.count(), 0);
    pip.save(pkg_data()).unwrap();
    assert_eq!(pip.count(), 1);
    let npm = open(pip.close(), "npm");
    assert_eq!(npm.count(), 1);
    assert_eq!(npm.registry().storage_namespace, "npm");
}

#[test]
fn replace_overwrites_in_place() {
    let mut backend = get_backend();
    backend.save(PackageData::new(vec![1], identity("a", "1"))).unwrap();
    backend.save(pkg_data()).unwrap();
    let new_meta = vec![(s("tag"), s("latest"))];
    let updated = PackageData::new(vec![5, 5], PackageInfo::new(s("foopkg"), s("1.0.0"), Some(new_meta)));
    let info = backend.replace(updated).unwrap();
    assert_eq!(info.name, "foopkg");
    assert_eq!(backend.count(), 2);
    let got = backend.get(&identity("foopkg", "1.0.0")).unwrap();
    assert_eq!(got.data, vec![5, 5]);
    assert_eq!(got.info.meta, Some(vec![(s("tag"), s("latest"))]));
    let all = backend.all();
    assert_eq!(all[1].name, "foopkg");
}

#[test]
fn replace_errors() {
    let mut backend = get_backend();
    let absent = PackageData::new(vec![1], identity("a", "1"));
    assert!(matches!(backend.replace(absent), Err(PackageBackendError::NotFound)));
    backend.save(PackageData::new(vec![1], identity("a", "1"))).unwrap();
    let meta = vec![(s("k"), s("1")), (s("k"), s("2"))];
    let bad = PackageData::new(vec![2], PackageInfo::new(s("a"), s("1"), Some(meta)));
    assert!(matches!(backend.replace(bad), Err(PackageBackendError::Constraint)));
    assert_eq!(backend.get(&identity("a", "1")).unwrap().data, vec![1]);
}

#[test]
fn all_lists_in_save_order() {
    let mut backend = get_backend();
    backend.save(PackageData::new(vec![], identity("b", "1"))).unwrap();
    backend.save(PackageData::new(vec![], identity("a", "1"))).unwrap();
    let all = backend.all();
    assert_eq!(all.len(), 2);
    assert_eq!(all[0].name, "b");
    assert_eq!(all[1].name, "a");
}

fn exercise<B: StorageBackend>(backend: &mut B) {
    assert_eq!(backend.count_packages().unwrap(), 0);
    backend.save_package(pkg_data()).unwrap();
    assert!(matches!(backend.save_package(pkg_data()), Err(PackageBackendError::Constraint)));
    assert_eq!(backend.all_packages().unwrap().len(), 1);
    let q = PackageQuery::new(Some(s("foopkg")), Some(s("1.0.0")), None);
    assert_eq!(backend.find_packages(&q).unwrap().len(), 1);
    assert_eq!(backend.get_package(&identity("foopkg", "1.0.0")).unwrap().data, vec![0, 1, 2, 3, 4]);
    let updated = PackageData::new(vec![8], identity("foopkg", "1.0.0"));
    backend.replace_package(updated).unwrap();
    assert_eq!(backend.get_package(&identity("foopkg", "1.0.0")).unwrap().data, vec![8]);
    backend.remove_package(&identity("foopkg", "1.0.0")).unwrap();
    assert_eq!(backend.count_packages().unwrap(), 0);
}

#[test]
fn backend_through_interface() {
    let init = StorageBackendConnector::connect(PackageBackendMemory::new(MemoryStorage::new())).unwrap();
    let mut backend = init.init(RegistryDescriptor::new(s("temp"), s("temp"))).unwrap();
    exercise(&mut backend);
}

#[test]
fn select_matching_filters_in_order() {
    let infos = vec![identity("a", "1"), identity("b", "1"), identity("a", "2")];
    let picked = select_matching(&infos, &PackageQuery::new(Some(s("a")), None, None));
    assert_eq!(picked.len(), 2);
    assert_eq!(picked[0].version, "1");
    assert_eq!(picked[1].version, "2");
    assert!(select_matching(&infos, &PackageQuery::new(None, Some(s("3")), None)).is_empty());
}
