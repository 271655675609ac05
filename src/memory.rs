use vstd::prelude::*;

use crate::error::PackageBackendError;
use crate::registry::RegistryDescriptor;
use crate::package::{
    meta_view, meta_wf, query_matches, same_identity, DataView, InfoView, PackageData,
    PackageInfo, PackageQuery, QueryView,
};

verus! {

/// The abstract rows of a namespace.
pub open spec fn rows_view(rows: Seq<PackageData>) -> Seq<DataView> {
    rows.map_values(|d: PackageData| d@)
}

/// The descriptions of the abstract rows, in order.
pub open spec fn infos_of(rows: Seq<DataView>) -> Seq<InfoView> {
    rows.map_values(|d: DataView| d.1)
}

pub open spec fn infos_view(infos: Seq<PackageInfo>) -> Seq<InfoView> {
    infos.map_values(|i: PackageInfo| i@)
}

/// Some row of `rows` has the identity of `info`.
pub open spec fn has_identity(rows: Seq<DataView>, info: InfoView) -> bool {
    exists|i: int| 0 <= i < rows.len() && same_identity(#[trigger] rows[i].1, info)
}

/// Identities are distinct and every row's metadata is a mapping.
pub open spec fn rows_wf(rows: Seq<DataView>) -> bool {
    &&& forall|i: int, j: int|
        0 <= i < j < rows.len() ==> !same_identity(#[trigger] rows[i].1, #[trigger] rows[j].1)
    &&& forall|i: int| 0 <= i < rows.len() ==> meta_wf(#[trigger] rows[i].1.2)
}

/// The index of the row with the identity of `info`.
pub open spec fn identity_index(rows: Seq<DataView>, info: InfoView) -> int {
    choose|i: int| 0 <= i < rows.len() && same_identity(#[trigger] rows[i].1, info)
}

/// The row stored under the identity of `info`, if there is one.
pub open spec fn stored(rows: Seq<DataView>, info: InfoView) -> Option<DataView> {
    if has_identity(rows, info) {
        Some(rows[identity_index(rows, info)])
    } else {
        None
    }
}

/// The rows after saving `d`: none where its identity is taken or its
/// metadata repeats a key.
pub open spec fn saved(rows: Seq<DataView>, d: DataView) -> Option<Seq<DataView>> {
    if !has_identity(rows, d.1) && meta_wf(d.1.2) {
        Some(rows.push(d))
    } else {
        None
    }
}

/// The rows after removing the identity of `info`: none where it is absent.
pub open spec fn removed(rows: Seq<DataView>, info: InfoView) -> Option<Seq<DataView>> {
    if has_identity(rows, info) {
        Some(rows.remove(identity_index(rows, info)))
    } else {
        None
    }
}

/// The rows after replacing the row with the identity of `d` by `d`, in
/// place: none where the identity is absent or the metadata repeats a key.
pub open spec fn replaced(rows: Seq<DataView>, d: DataView) -> Option<Seq<DataView>> {
    if has_identity(rows, d.1) && meta_wf(d.1.2) {
        Some(rows.update(identity_index(rows, d.1), d))
    } else {
        None
    }
}

/// In well-formed rows the row with a given identity is the only one.
pub proof fn lemma_identity_index(rows: Seq<DataView>, info: InfoView, i: int)
    requires
        rows_wf(rows),
        0 <= i < rows.len(),
        same_identity(rows[i].1, info),
    ensures
        has_identity(rows, info),
        identity_index(rows, info) == i,
{
    let k = identity_index(rows, info);
    assert(same_identity(rows[k].1, info));
    if k < i {
        assert(!same_identity(rows[k].1, rows[i].1));
    } else if i < k {
        assert(!same_identity(rows[i].1, rows[k].1));
    }
}

/// The descriptions of the rows that match `q`, in the rows' order.
pub open spec fn matching_infos(rows: Seq<DataView>, q: QueryView) -> Seq<InfoView>
    decreases rows.len(),
{
    if rows.len() == 0 {
        Seq::empty()
    } else {
        let prev = matching_infos(rows.drop_last(), q);
        if query_matches(q, rows.last().1) {
            prev.push(rows.last().1)
        } else {
            prev
        }
    }
}

/// The descriptions among `infos` that match `q`, in order.
pub open spec fn matching_of(infos: Seq<InfoView>, q: QueryView) -> Seq<InfoView>
    decreases infos.len(),
{
    if infos.len() == 0 {
        Seq::empty()
    } else {
        let prev = matching_of(infos.drop_last(), q);
        if query_matches(q, infos.last()) {
            prev.push(infos.last())
        } else {
            prev
        }
    }
}

/// Copies of the descriptions among `infos` that match `q`, in order.
pub fn select_matching(infos: &Vec<PackageInfo>, q: &PackageQuery) -> (r: Vec<PackageInfo>)
    ensures
        infos_view(r@) == matching_of(infos_view(infos@), q@),
{
    let ghost all = infos_view(infos@);
    let mut r: Vec<PackageInfo> = Vec::new();
    let mut i: usize = 0;
    while i < infos.len()
        invariant
            i <= infos.len(),
            all == infos_view(infos@),
            all.len() == infos.len(),
            infos_view(r@) =~= matching_of(all.subrange(0, i as int), q@),
        decreases infos.len() - i,
    {
        assert(all.subrange(0, i + 1).drop_last() =~= all.subrange(0, i as int));
        if q.matches(&infos[i]) {
            r.push(infos[i].duplicate());
        }
        i = i + 1;
    }
    assert(all.subrange(0, i as int) =~= all);
    r
}

/// Whether the keys of `m` are distinct, checked pair by pair as a unique
/// index on the metadata keys would.
pub fn meta_keys_distinct(m: &Vec<(String, String)>) -> (r: bool)
    ensures
        r == meta_wf(Some(meta_view(m@))),
{
    let ghost mv = meta_view(m@);
    let mut i: usize = 0;
    while i < m.len()
        invariant
            i <= m.len(),
            mv == meta_view(m@),
            mv.len() == m.len(),
            forall|a: int, b: int| 0 <= a < b < i ==> (#[trigger] mv[a]).0 != (#[trigger] mv[b]).0,
        decreases m.len() - i,
    {
        let mut j: usize = 0;
        while j < i
            invariant
                j <= i < m.len(),
                mv == meta_view(m@),
                mv.len() == m.len(),
                forall|a: int, b: int| 0 <= a < b < i ==> (#[trigger] mv[a]).0 != (#[trigger] mv[b]).0,
                forall|a: int| 0 <= a < j ==> (#[trigger] mv[a]).0 != mv[i as int].0,
            decreases i - j,
        {
            if m[j].0 == m[i].0 {
                assert(mv[j as int].0 == mv[i as int].0);
                return false;
            }
            j = j + 1;
        }
        i = i + 1;
    }
    true
}

/// Whether the metadata of a package may be stored.
fn meta_storable(info: &PackageInfo) -> (r: bool)
    ensures
        r == meta_wf(info@.2),
{
    match &info.meta {
        Some(m) => meta_keys_distinct(m),
        None => true,
    }
}

/// The packages of one namespace.
pub struct NamespaceTable {
    namespace: String,
    rows: Vec<PackageData>,
}

impl View for NamespaceTable {
    type V = (Seq<char>, Seq<DataView>);

    closed spec fn view(&self) -> (Seq<char>, Seq<DataView>) {
        (self.namespace@, rows_view(self.rows@))
    }
}

impl NamespaceTable {
    /// An empty table for the namespace `namespace`.
    pub fn new(namespace: String) -> (r: Self)
        ensures
            r@ == (namespace@, Seq::<DataView>::empty()),
    {
        let r = NamespaceTable { namespace, rows: Vec::new() };
        assert(rows_view(r.rows@) =~= Seq::<DataView>::empty());
        r
    }

    /// The index of the row with the identity of `info`, if there is one.
    fn position(&self, info: &PackageInfo) -> (r: Option<usize>)
        ensures
            match r {
                Some(i) => i < self@.1.len() && same_identity(self@.1[i as int].1, info@),
                None => !has_identity(self@.1, info@),
            },
    {
        let ghost rows = self@.1;
        let mut i: usize = 0;
        while i < self.rows.len()
            invariant
                i <= self.rows.len(),
                rows == rows_view(self.rows@),
                rows.len() == self.rows.len(),
                forall|j: int| 0 <= j < i ==> !same_identity(#[trigger] rows[j].1, info@),
            decreases self.rows.len() - i,
        {
            if self.rows[i].info.name == info.name && self.rows[i].info.version == info.version {
                return Some(i);
            }
            i = i + 1;
        }
        None
    }

    fn count(&self) -> (r: usize)
        ensures
            r == self@.1.len(),
    {
        self.rows.len()
    }

    fn all(&self) -> (r: Vec<PackageInfo>)
        ensures
            infos_view(r@) == infos_of(self@.1),
    {
        let ghost rows = self@.1;
        let mut r: Vec<PackageInfo> = Vec::new();
        let mut i: usize = 0;
        while i < self.rows.len()
            invariant
                i <= self.rows.len(),
                rows == rows_view(self.rows@),
                rows.len() == self.rows.len(),
                infos_view(r@) =~= infos_of(rows.subrange(0, i as int)),
            decreases self.rows.len() - i,
        {
            r.push(self.rows[i].info.duplicate());
            i = i + 1;
            assert(infos_of(rows.subrange(0, i as int)) =~= infos_of(rows.subrange(0, i - 1)).push(
                rows[i - 1].1,
            ));
        }
        assert(rows.subrange(0, i as int) =~= rows);
        r
    }

    fn find(&self, q: &PackageQuery) -> (r: Vec<PackageInfo>)
        ensures
            infos_view(r@) == matching_infos(self@.1, q@),
    {
        let ghost rows = self@.1;
        let mut r: Vec<PackageInfo> = Vec::new();
        let mut i: usize = 0;
        while i < self.rows.len()
            invariant
                i <= self.rows.len(),
                rows == rows_view(self.rows@),
                rows.len() == self.rows.len(),
                infos_view(r@) =~= matching_infos(rows.subrange(0, i as int), q@),
            decreases self.rows.len() - i,
        {
            assert(rows.subrange(0, i + 1).drop_last() =~= rows.subrange(0, i as int));
            if q.matches(&self.rows[i].info) {
                r.push(self.rows[i].info.duplicate());
            }
            i = i + 1;
        }
        assert(rows.subrange(0, i as int) =~= rows);
        r
    }
    fn get(&self, info: &PackageInfo) -> (r: Result<PackageData, PackageBackendError>)
        requires
            rows_wf(self@.1),
        ensures
            r is Ok <==> has_identity(self@.1, info@),
            r matches Ok(d) ==> stored(self@.1, info@) == Some(d@),
            r matches Err(e) ==> e == PackageBackendError::NotFound,
    {
        match self.position(info) {
            Some(i) => {
                let d = self.rows[i].duplicate();
                proof {
                    lemma_identity_index(self@.1, info@, i as int);
                }
                assert(d@ == self@.1[i as int]);
                Ok(d)
            },
            None => Err(PackageBackendError::NotFound),
        }
    }

    /// Adds `data` as a new row: either the whole row lands or nothing does.
    fn save(&mut self, data: PackageData) -> (r: Result<PackageInfo, PackageBackendError>)
        requires
            rows_wf(old(self)@.1),
        ensures
            rows_wf(final(self)@.1),
            final(self)@.0 == old(self)@.0,
            r is Ok <==> saved(old(self)@.1, data@) is Some,
            r matches Ok(info) ==> info@ == data@.1 && saved(old(self)@.1, data@) == Some(
                final(self)@.1,
            ),
            r matches Err(e) ==> e == PackageBackendError::Constraint && final(self)@ == old(self)@,
    {
        if self.position(&data.info).is_some() {
            return Err(PackageBackendError::Constraint);
        }
        if !meta_storable(&data.info) {
            return Err(PackageBackendError::Constraint);
        }
        let info = data.info.duplicate();
        let ghost old_rows = self@.1;
        self.rows.push(data);
        proof {
            assert(rows_view(self.rows@) =~= old_rows.push(data@));
            let rows = self@.1;
            assert forall|i: int, j: int| 0 <= i < j < rows.len() implies !same_identity(
                #[trigger] rows[i].1,
                #[trigger] rows[j].1,
            ) by {
                if j == rows.len() - 1 {
                    assert(same_identity(rows[i].1, rows[j].1) ==> same_identity(old_rows[i].1, data@.1));
                }
            }
        }
        Ok(info)
    }

    /// Removes the row with the identity of `info`.
    fn remove(&mut self, info: &PackageInfo) -> (r: Result<PackageInfo, PackageBackendError>)
        requires
            rows_wf(old(self)@.1),
        ensures
            rows_wf(final(self)@.1),
            final(self)@.0 == old(self)@.0,
            r is Ok <==> removed(old(self)@.1, info@) is Some,
            r matches Ok(x) ==> x@ == (stored(old(self)@.1, info@)->0).1 && removed(
                old(self)@.1,
                info@,
            ) == Some(final(self)@.1),
            r matches Err(e) ==> e == PackageBackendError::NotFound && final(self)@ == old(self)@,
    {
        match self.position(info) {
            Some(i) => {
                let ghost old_rows = self@.1;
                proof {
                    lemma_identity_index(old_rows, info@, i as int);
                }
                let d = self.rows.remove(i);
                proof {
                    assert(rows_view(self.rows@) =~= old_rows.remove(i as int));
                    let rows = self@.1;
                    assert forall|a: int, b: int| 0 <= a < b < rows.len() implies !same_identity(
                        #[trigger] rows[a].1,
                        #[trigger] rows[b].1,
                    ) by {
                        let oa = if a < i { a } else { a + 1 };
                        let ob = if b < i { b } else { b + 1 };
                        assert(rows[a] == old_rows[oa] && rows[b] == old_rows[ob]);
                    }
                    assert forall|a: int| 0 <= a < rows.len() implies meta_wf(#[trigger] rows[a].1.2) by {
                        let oa = if a < i { a } else { a + 1 };
                        assert(rows[a] == old_rows[oa]);
                    }
                }
                Ok(d.info)
            },
            None => Err(PackageBackendError::NotFound),
        }
    }

    /// Overwrites bytes and metadata of the row with the identity of `data`,
    /// keeping its place.
    fn replace(&mut self, data: PackageData) -> (r: Result<PackageInfo, PackageBackendError>)
        requires
            rows_wf(old(self)@.1),
        ensures
            rows_wf(final(self)@.1),
            final(self)@.0 == old(self)@.0,
            r is Ok <==> replaced(old(self)@.1, data@) is Some,
            r matches Ok(info) ==> info@ == data@.1 && replaced(old(self)@.1, data@) == Some(
                final(self)@.1,
            ),
            r matches Err(e) ==> final(self)@ == old(self)@ && (if has_identity(old(self)@.1, data@.1) {
                e == PackageBackendError::Constraint
            } else {
                e == PackageBackendError::NotFound
            }),
    {
        match self.position(&data.info) {
            Some(i) => {
                if !meta_storable(&data.info) {
                    return Err(PackageBackendError::Constraint);
                }
                let info = data.info.duplicate();
                let ghost old_rows = self@.1;
                proof {
                    lemma_identity_index(old_rows, data@.1, i as int);
                }
                let _ = self.rows.remove(i);
                self.rows.insert(i, data);
                proof {
                    assert(rows_view(self.rows@) =~= old_rows.update(i as int, data@));
                    let rows = self@.1;
                    assert forall|a: int, b: int| 0 <= a < b < rows.len() implies !same_identity(
                        #[trigger] rows[a].1,
                        #[trigger] rows[b].1,
                    ) by {
                        assert(same_identity(rows[a].1, rows[b].1) ==> same_identity(
                            old_rows[a].1,
                            old_rows[b].1,
                        ));
                    }
                }
                Ok(info)
            },
            None => Err(PackageBackendError::NotFound),
        }
    }
}

/// Saving keeps the rows well formed.
pub proof fn lemma_saved_wf(rows: Seq<DataView>, d: DataView)
    requires
        rows_wf(rows),
        saved(rows, d) is Some,
    ensures
        rows_wf(saved(rows, d)->0),
{
    let t = rows.push(d);
    assert forall|i: int, j: int| 0 <= i < j < t.len() implies !same_identity(
        #[trigger] t[i].1,
        #[trigger] t[j].1,
    ) by {
        if j == rows.len() {
            assert(t[i] == rows[i]);
            assert(same_identity(t[i].1, t[j].1) ==> same_identity(rows[i].1, d.1));
        } else {
            assert(t[i] == rows[i] && t[j] == rows[j]);
        }
    }
    assert forall|i: int| 0 <= i < t.len() implies meta_wf(#[trigger] t[i].1.2) by {
        if i < rows.len() {
            assert(t[i] == rows[i]);
        }
    }
}

/// Of two packages with the same name and version, saved one after the other
/// into a namespace that holds neither, the first is stored and the second is
/// refused.
pub proof fn lemma_identity_saved_once(rows: Seq<DataView>, d1: DataView, d2: DataView)
    requires
        rows_wf(rows),
        same_identity(d1.1, d2.1),
        !has_identity(rows, d1.1),
        meta_wf(d1.1.2),
    ensures
        saved(rows, d1) is Some,
        saved(saved(rows, d1)->0, d2) is None,
{
    let t = rows.push(d1);
    assert(same_identity(t[rows.len() as int].1, d2.1));
}

/// What a successful save stored, a lookup of its identity gives back: the
/// same bytes and the same metadata.
pub proof fn lemma_save_then_get(rows: Seq<DataView>, d: DataView)
    requires
        rows_wf(rows),
        saved(rows, d) is Some,
    ensures
        stored(saved(rows, d)->0, d.1) == Some(d),
{
    lemma_saved_wf(rows, d);
    let t = rows.push(d);
    lemma_identity_index(t, d.1, rows.len() as int);
}

/// A successful save adds exactly one package; a successful removal takes
/// away exactly one.
pub proof fn lemma_count_steps(rows: Seq<DataView>, d: DataView, info: InfoView)
    requires
        rows_wf(rows),
    ensures
        saved(rows, d) matches Some(t) ==> t.len() == rows.len() + 1,
        removed(rows, info) matches Some(t) ==> t.len() == rows.len() - 1,
{
    if has_identity(rows, info) {
        let i = choose|i: int| 0 <= i < rows.len() && same_identity(#[trigger] rows[i].1, info);
        lemma_identity_index(rows, info, i);
    }
}

/// A save of a new identity whose metadata repeats a key fails as a whole:
/// no rows are added (a failed save leaves the rows as they were), and a
/// lookup of the identity still finds nothing.
pub proof fn lemma_failed_save_leaves_nothing(rows: Seq<DataView>, d: DataView)
    requires
        !has_identity(rows, d.1),
        !meta_wf(d.1.2),
    ensures
        saved(rows, d) is None,
        stored(rows, d.1) is None,
{
}

/// The abstract value of a storage engine: each namespace with its rows.
pub type StorageView = Seq<(Seq<char>, Seq<DataView>)>;

/// Some table of `s` belongs to the namespace `ns`.
pub open spec fn has_namespace(s: StorageView, ns: Seq<char>) -> bool {
    exists|i: int| 0 <= i < s.len() && (#[trigger] s[i]).0 == ns
}

/// Namespaces are distinct and every namespace's rows are well formed.
pub open spec fn storage_wf(s: StorageView) -> bool {
    &&& forall|i: int, j: int| 0 <= i < j < s.len() ==> (#[trigger] s[i]).0 != (#[trigger] s[j]).0
    &&& forall|i: int| 0 <= i < s.len() ==> rows_wf((#[trigger] s[i]).1)
}

/// The rows of the namespace `ns`; none where it has no table.
pub open spec fn namespace_rows(s: StorageView, ns: Seq<char>) -> Seq<DataView> {
    if has_namespace(s, ns) {
        s[choose|i: int| 0 <= i < s.len() && (#[trigger] s[i]).0 == ns].1
    } else {
        Seq::empty()
    }
}

/// The storage after provisioning the namespace `ns`: an empty table is
/// added where the namespace has none, and nothing else changes.
pub open spec fn provisioned(s: StorageView, ns: Seq<char>) -> StorageView {
    if has_namespace(s, ns) {
        s
    } else {
        s.push((ns, Seq::empty()))
    }
}

/// Every namespace but `ns` keeps its table and its rows from `s` to `t`.
pub open spec fn others_unchanged(s: StorageView, t: StorageView, ns: Seq<char>) -> bool {
    forall|n: Seq<char>|
        n != ns ==> (#[trigger] has_namespace(t, n) == has_namespace(s, n) && namespace_rows(t, n)
            == namespace_rows(s, n))
}

proof fn lemma_namespace_rows_at(s: StorageView, k: int)
    requires
        storage_wf(s),
        0 <= k < s.len(),
    ensures
        has_namespace(s, s[k].0),
        namespace_rows(s, s[k].0) == s[k].1,
{
    assert(s[k].0 == s[k].0);
    let i = choose|i: int| 0 <= i < s.len() && (#[trigger] s[i]).0 == s[k].0;
    if i != k {
        if i < k {
            assert(s[i].0 != s[k].0);
        } else {
            assert(s[k].0 != s[i].0);
        }
    }
}

/// Writing the rows of the table at `k` leaves every other namespace as it was.
proof fn lemma_update_table(s: StorageView, k: int, rows: Seq<DataView>)
    requires
        storage_wf(s),
        0 <= k < s.len(),
        rows_wf(rows),
    ensures
        storage_wf(s.update(k, (s[k].0, rows))),
        namespace_rows(s.update(k, (s[k].0, rows)), s[k].0) == rows,
        others_unchanged(s, s.update(k, (s[k].0, rows)), s[k].0),
{
    let t = s.update(k, (s[k].0, rows));
    assert(storage_wf(t)) by {
        assert forall|i: int, j: int| 0 <= i < j < t.len() implies (#[trigger] t[i]).0 != (
        #[trigger] t[j]).0 by {
            assert(s[i].0 != s[j].0);
        }
        assert forall|i: int| 0 <= i < t.len() implies rows_wf((#[trigger] t[i]).1) by {
            if i != k {
                assert(t[i] == s[i]);
            }
        }
    }
    lemma_namespace_rows_at(t, k);
    assert forall|n: Seq<char>| n != s[k].0 implies (#[trigger] has_namespace(t, n)
        == has_namespace(s, n) && namespace_rows(t, n) == namespace_rows(s, n)) by {
        if has_namespace(s, n) {
            let i = choose|i: int| 0 <= i < s.len() && (#[trigger] s[i]).0 == n;
            assert(t[i] == s[i]);
            lemma_namespace_rows_at(s, i);
            lemma_namespace_rows_at(t, i);
        }
        if has_namespace(t, n) {
            let i = choose|i: int| 0 <= i < t.len() && (#[trigger] t[i]).0 == n;
            assert(t[i] == s[i]);
        }
    }
}

/// Provisioning twice is provisioning once, and provisioning keeps the rows
/// of every namespace, the provisioned one included.
pub proof fn lemma_provisioned_keeps_rows(s: StorageView, ns: Seq<char>)
    requires
        storage_wf(s),
    ensures
        provisioned(provisioned(s, ns), ns) == provisioned(s, ns),
        storage_wf(provisioned(s, ns)),
        has_namespace(provisioned(s, ns), ns),
        forall|n: Seq<char>| #[trigger]
            namespace_rows(provisioned(s, ns), n) == namespace_rows(s, n),
{
    let t = provisioned(s, ns);
    if !has_namespace(s, ns) {
        let k = s.len() as int;
        assert(t[k].0 == ns);
        assert(storage_wf(t)) by {
            assert forall|i: int, j: int| 0 <= i < j < t.len() implies (#[trigger] t[i]).0 != (
            #[trigger] t[j]).0 by {
                if j == k {
                    assert(t[i] == s[i]);
                    assert(t[i].0 != ns);
                } else {
                    assert(s[i].0 != s[j].0);
                }
            }
            assert forall|i: int| 0 <= i < t.len() implies rows_wf((#[trigger] t[i]).1) by {
                if i < k {
                    assert(t[i] == s[i]);
                } else {
                    assert(t[i].1 =~= Seq::<DataView>::empty());
                }
            }
        }
        assert forall|n: Seq<char>| #[trigger] namespace_rows(t, n) == namespace_rows(s, n) by {
            if n == ns {
                lemma_namespace_rows_at(t, k);
            } else {
                if has_namespace(s, n) {
                    let i = choose|i: int| 0 <= i < s.len() && (#[trigger] s[i]).0 == n;
                    assert(t[i] == s[i]);
                    lemma_namespace_rows_at(s, i);
                    lemma_namespace_rows_at(t, i);
                }
                if has_namespace(t, n) {
                    let i = choose|i: int| 0 <= i < t.len() && (#[trigger] t[i]).0 == n;
                    assert(i < k);
                    assert(t[i] == s[i]);
                }
            }
        }
    }
}

/// The storage engine of the in-memory backend: one table per namespace.
pub struct MemoryStorage {
    tables: Vec<NamespaceTable>,
}

impl View for MemoryStorage {
    type V = StorageView;

    closed spec fn view(&self) -> StorageView {
        self.tables@.map_values(|t: NamespaceTable| t@)
    }
}

impl MemoryStorage {
    /// A storage engine that holds no namespace.
    pub fn new() -> (r: Self)
        ensures
            r@ == StorageView::empty(),
            storage_wf(r@),
    {
        let r = MemoryStorage { tables: Vec::new() };
        assert(r@ =~= StorageView::empty());
        r
    }

    /// Creates the table of `ns` where it is absent; an existing table and its
    /// rows are left as they are. Returns the index of the table.
    pub fn provision(&mut self, ns: &String) -> (slot: usize)
        requires
            storage_wf(old(self)@),
        ensures
            final(self)@ == provisioned(old(self)@, ns@),
            storage_wf(final(self)@),
            slot < final(self)@.len(),
            final(self)@[slot as int].0 == ns@,
    {
        let ghost s = self@;
        let mut i: usize = 0;
        while i < self.tables.len()
            invariant
                i <= self.tables.len(),
                s == self@,
                storage_wf(s),
                s.len() == self.tables.len(),
                forall|j: int| 0 <= j < i ==> (#[trigger] s[j]).0 != ns@,
            decreases self.tables.len() - i,
        {
            if self.tables[i].namespace == *ns {
                assert(s[i as int].0 == ns@);
                return i;
            }
            i = i + 1;
        }
        let t = NamespaceTable::new(ns.clone());
        self.tables.push(t);
        proof {
            assert(self@ =~= s.push((ns@, Seq::<DataView>::empty())));
            let u = self@;
            assert forall|a: int, b: int| 0 <= a < b < u.len() implies (#[trigger] u[a]).0 != (
            #[trigger] u[b]).0 by {
                if b < s.len() {
                    assert(s[a].0 != s[b].0);
                } else {
                    assert(s[a].0 != ns@);
                }
            }
            assert forall|a: int| 0 <= a < u.len() implies rows_wf((#[trigger] u[a]).1) by {
                if a < s.len() {
                    assert(u[a] == s[a]);
                }
            }
        }
        i
    }
}

/// The connector of the in-memory backend: it holds the storage engine until
/// a session is opened on it.
pub struct PackageBackendMemory {
    storage: MemoryStorage,
}

impl PackageBackendMemory {
    pub fn new(storage: MemoryStorage) -> (r: Self)
        ensures
            r.storage_view() == storage@,
    {
        PackageBackendMemory { storage }
    }

    pub closed spec fn storage_view(&self) -> StorageView {
        self.storage@
    }

    /// Opens the session; an in-memory engine is always reachable.
    pub fn connect(self) -> (r: Result<MemoryInitializer, PackageBackendError>)
        ensures
            r matches Ok(init) && init.storage_view() == self.storage_view(),
    {
        Ok(MemoryInitializer { storage: self.storage })
    }
}

/// An open session on the in-memory engine, ready to provision a namespace.
pub struct MemoryInitializer {
    storage: MemoryStorage,
}

impl MemoryInitializer {
    pub closed spec fn storage_view(&self) -> StorageView {
        self.storage@
    }

    /// Provisions the registry's namespace and binds the session to it. The
    /// namespace of a registry is never empty. Existing tables and rows of
    /// every namespace are kept.
    pub fn init(self, registry: RegistryDescriptor) -> (r: Result<MemoryInstance, PackageBackendError>)
        requires
            storage_wf(self.storage_view()),
            registry.storage_namespace@.len() > 0,
        ensures
            r is Ok,
            r matches Ok(inst) ==> {
                &&& inst.wf()
                &&& inst.namespace() == registry.storage_namespace@
                &&& inst.storage_view() == provisioned(self.storage_view(), registry.storage_namespace@)
                &&& inst.rows() == namespace_rows(self.storage_view(), registry.storage_namespace@)
            },
    {
        let mut storage = self.storage;
        let slot = storage.provision(&registry.storage_namespace);
        let inst = MemoryInstance { storage, slot, registry };
        proof {
            lemma_namespace_rows_at(inst.storage@, slot as int);
            lemma_provisioned_keeps_rows(self.storage@, inst.namespace());
        }
        Ok(inst)
    }
}

/// A live backend bound to one registry's namespace. It owns the storage
/// engine; `close` hands it back.
pub struct MemoryInstance {
    storage: MemoryStorage,
    slot: usize,
    registry: RegistryDescriptor,
}

impl MemoryInstance {
    pub closed spec fn storage_view(&self) -> StorageView {
        self.storage@
    }

    /// The namespace that the instance is bound to.
    pub closed spec fn namespace(&self) -> Seq<char> {
        self.registry.storage_namespace@
    }

    /// The rows of the instance's namespace.
    pub open spec fn rows(&self) -> Seq<DataView> {
        namespace_rows(self.storage_view(), self.namespace())
    }

    pub closed spec fn wf(&self) -> bool {
        &&& storage_wf(self.storage@)
        &&& self.slot < self.storage@.len()
        &&& self.storage@[self.slot as int].0 == self.registry.storage_namespace@
    }

    proof fn lemma_rows(&self)
        requires
            self.wf(),
        ensures
            self.rows() == self.storage@[self.slot as int].1,
            rows_wf(self.rows()),
    {
        lemma_namespace_rows_at(self.storage@, self.slot as int);
    }

    /// In a live instance no two packages share a name and version, and the
    /// metadata of each is a mapping.
    pub proof fn lemma_rows_wf(&self)
        requires
            self.wf(),
        ensures
            rows_wf(self.rows()),
    {
        self.lemma_rows();
    }

    /// The registry that the instance serves.
    pub fn registry(&self) -> (r: &RegistryDescriptor)
        ensures
            r.storage_namespace@ == self.namespace(),
    {
        &self.registry
    }

    /// Ends the instance and hands the storage engine back.
    pub fn close(self) -> (r: MemoryStorage)
        requires
            self.wf(),
        ensures
            r@ == self.storage_view(),
            storage_wf(r@),
    {
        self.storage
    }

    /// The number of packages in the namespace.
    pub fn count(&self) -> (r: usize)
        requires
            self.wf(),
        ensures
            r == self.rows().len(),
    {
        proof {
            self.lemma_rows();
        }
        self.storage.tables[self.slot].count()
    }

    /// The descriptions of all packages of the namespace.
    pub fn all(&self) -> (r: Vec<PackageInfo>)
        requires
            self.wf(),
        ensures
            infos_view(r@) == infos_of(self.rows()),
    {
        proof {
            self.lemma_rows();
        }
        self.storage.tables[self.slot].all()
    }

    /// The descriptions of the packages that match `q`; empty where none does.
    pub fn find(&self, q: &PackageQuery) -> (r: Vec<PackageInfo>)
        requires
            self.wf(),
        ensures
            infos_view(r@) == matching_infos(self.rows(), q@),
    {
        proof {
            self.lemma_rows();
        }
        self.storage.tables[self.slot].find(q)
    }

    /// The package stored under the identity of `info`.
    pub fn get(&self, info: &PackageInfo) -> (r: Result<PackageData, PackageBackendError>)
        requires
            self.wf(),
        ensures
            r is Ok <==> has_identity(self.rows(), info@),
            r matches Ok(d) ==> stored(self.rows(), info@) == Some(d@),
            r matches Err(e) ==> e == PackageBackendError::NotFound,
    {
        proof {
            self.lemma_rows();
        }
        self.storage.tables[self.slot].get(info)
    }
    /// Stores a new package. Either the package and all of its metadata land, or nothing does: a taken identity or a repeated metadata key leaves the namespace as it was.
    pub fn save(&mut self, data: PackageData) -> (r: Result<PackageInfo, PackageBackendError>)
        requires
            old(self).wf(),
        ensures
            final(self).wf(),
            final(self).namespace() == old(self).namespace(),
            others_unchanged(old(self).storage_view(), final(self).storage_view(), old(self).namespace()),
            r is Ok <==> saved(old(self).rows(), data@) is Some,
            r matches Ok(x) ==> x@ == data@.1 && saved(old(self).rows(), data@) == Some(final(self).rows()),
            r matches Err(e) ==> final(self).storage_view() == old(self).storage_view() && e == PackageBackendError::Constraint,
    {
        proof {
            self.lemma_rows();
        }
        let ghost old_s = self.storage@;
        let mut t = self.storage.tables.remove(self.slot);
        let r = t.save(data);
        let ghost tv = t@;
        self.storage.tables.insert(self.slot, t);
        proof {
            assert(self.storage@ =~= old_s.update(self.slot as int, tv));
            assert(tv == (old_s[self.slot as int].0, tv.1));
            lemma_update_table(old_s, self.slot as int, tv.1);
            self.lemma_rows();
            if r is Err {
                assert(self.storage@ =~= old_s);
            }
        }
        r
    }

    /// Removes the package with the identity of `info`, with its metadata, and returns its description.
    pub fn remove(&mut self, info: &PackageInfo) -> (r: Result<PackageInfo, PackageBackendError>)
        requires
            old(self).wf(),
        ensures
            final(self).wf(),
            final(self).namespace() == old(self).namespace(),
            others_unchanged(old(self).storage_view(), final(self).storage_view(), old(self).namespace()),
            r is Ok <==> removed(old(self).rows(), info@) is Some,
            r matches Ok(x) ==> x@ == (stored(old(self).rows(), info@)->0).1 && removed(old(self).rows(), info@) == Some(final(self).rows()),
            r matches Err(e) ==> final(self).storage_view() == old(self).storage_view() && e == PackageBackendError::NotFound,
    {
        proof {
            self.lemma_rows();
        }
        let ghost old_s = self.storage@;
        let mut t = self.storage.tables.remove(self.slot);
        let r = t.remove(info);
        let ghost tv = t@;
        self.storage.tables.insert(self.slot, t);
        proof {
            assert(self.storage@ =~= old_s.update(self.slot as int, tv));
            assert(tv == (old_s[self.slot as int].0, tv.1));
            lemma_update_table(old_s, self.slot as int, tv.1);
            self.lemma_rows();
            if r is Err {
                assert(self.storage@ =~= old_s);
            }
        }
        r
    }

    /// Overwrites the bytes and metadata of an existing package in place; its identity and its place stay.
    pub fn replace(&mut self, data: PackageData) -> (r: Result<PackageInfo, PackageBackendError>)
        requires
            old(self).wf(),
        ensures
            final(self).wf(),
            final(self).namespace() == old(self).namespace(),
            others_unchanged(old(self).storage_view(), final(self).storage_view(), old(self).namespace()),
            r is Ok <==> replaced(old(self).rows(), data@) is Some,
            r matches Ok(x) ==> x@ == data@.1 && replaced(old(self).rows(), data@) == Some(final(self).rows()),
            r matches Err(e) ==> final(self).storage_view() == old(self).storage_view() && (if has_identity(old(self).rows(), data@.1) { e == PackageBackendError::Constraint } else { e == PackageBackendError::NotFound }),
    {
        proof {
            self.lemma_rows();
        }
        let ghost old_s = self.storage@;
        let mut t = self.storage.tables.remove(self.slot);
        let r = t.replace(data);
        let ghost tv = t@;
        self.storage.tables.insert(self.slot, t);
        proof {
            assert(self.storage@ =~= old_s.update(self.slot as int, tv));
            assert(tv == (old_s[self.slot as int].0, tv.1));
            lemma_update_table(old_s, self.slot as int, tv.1);
            self.lemma_rows();
            if r is Err {
                assert(self.storage@ =~= old_s);
            }
        }
        r
    }
}

} // verus!
