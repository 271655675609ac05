use vstd::prelude::*;

verus! {

/// The abstract value of a metadata list: its (key, value) pairs in order.
pub type MetaView = Seq<(Seq<char>, Seq<char>)>;

/// The abstract value of a `PackageInfo`: name, version and metadata.
pub type InfoView = (Seq<char>, Seq<char>, Option<MetaView>);

/// The abstract value of a `PackageData`: the artifact bytes and its info.
pub type DataView = (Seq<u8>, InfoView);

/// The abstract value of a `PackageQuery`.
pub type QueryView = (Option<Seq<char>>, Option<Seq<char>>, Option<MetaView>);

pub open spec fn meta_view(m: Seq<(String, String)>) -> MetaView {
    m.map_values(|p: (String, String)| (p.0@, p.1@))
}

pub open spec fn opt_meta_view(m: Option<Vec<(String, String)>>) -> Option<MetaView> {
    match m {
        Some(v) => Some(meta_view(v@)),
        None => None,
    }
}

pub open spec fn opt_str_view(s: Option<String>) -> Option<Seq<char>> {
    match s {
        Some(v) => Some(v@),
        None => None,
    }
}

/// The pair `(k, v)` is among the metadata pairs `m`.
pub open spec fn meta_has(m: MetaView, k: Seq<char>, v: Seq<char>) -> bool {
    exists|i: int| 0 <= i < m.len() && #[trigger] m[i] == (k, v)
}

/// No key occurs twice among the metadata pairs `m`.
pub open spec fn meta_keys_unique(m: MetaView) -> bool {
    forall|i: int, j: int| 0 <= i < j < m.len() ==> (#[trigger] m[i]).0 != (#[trigger] m[j]).0
}

/// Metadata is well formed when it is a mapping: absent, or with distinct keys.
pub open spec fn meta_wf(m: Option<MetaView>) -> bool {
    match m {
        Some(s) => meta_keys_unique(s),
        None => true,
    }
}

/// The pair `(k, v)` is among the metadata pairs, where there are any.
pub open spec fn opt_meta_has(m: Option<MetaView>, k: Seq<char>, v: Seq<char>) -> bool {
    match m {
        Some(s) => meta_has(s, k, v),
        None => false,
    }
}

/// Every pair that the query asks for is present in the package's metadata.
pub open spec fn meta_matches(q: MetaView, m: Option<MetaView>) -> bool {
    forall|i: int| 0 <= i < q.len() ==> opt_meta_has(m, (#[trigger] q[i]).0, q[i].1)
}

/// A query matches a package when each field that it gives is matched.
pub open spec fn query_matches(q: QueryView, info: InfoView) -> bool {
    &&& (q.0 matches Some(n) ==> n == info.0)
    &&& (q.1 matches Some(v) ==> v == info.1)
    &&& (q.2 matches Some(m) ==> meta_matches(m, info.2))
}

/// Two packages share an identity when name and version are equal.
pub open spec fn same_identity(a: InfoView, b: InfoView) -> bool {
    a.0 == b.0 && a.1 == b.1
}

/// A package artifact: its raw bytes and its description.
pub struct PackageData {
    pub data: Vec<u8>,
    pub info: PackageInfo,
}

impl View for PackageData {
    type V = DataView;

    open spec fn view(&self) -> DataView {
        (self.data@, self.info@)
    }
}

impl PackageData {
    pub fn new(data: Vec<u8>, info: PackageInfo) -> (r: Self)
        ensures
            r@ == (data@, info@),
    {
        PackageData { data, info }
    }

    /// A copy of the package with the same bytes and description.
    pub fn duplicate(&self) -> (r: Self)
        ensures
            r@ == self@,
    {
        let data = self.data.clone();
        assert(data@ =~= self.data@);
        PackageData { data, info: self.info.duplicate() }
    }
}

/// The description of a package: its identity and its metadata pairs.
pub struct PackageInfo {
    pub name: String,
    pub version: String,
    pub meta: Option<Vec<(String, String)>>,
}

impl View for PackageInfo {
    type V = InfoView;

    open spec fn view(&self) -> InfoView {
        (self.name@, self.version@, opt_meta_view(self.meta))
    }
}

/// A copy of a list of metadata pairs.
pub fn copy_meta(m: &Vec<(String, String)>) -> (r: Vec<(String, String)>)
    ensures
        meta_view(r@) == meta_view(m@),
{
    let mut r: Vec<(String, String)> = Vec::new();
    let mut i: usize = 0;
    while i < m.len()
        invariant
            i <= m.len(),
            meta_view(r@) =~= meta_view(m@.subrange(0, i as int)),
        decreases m.len() - i,
    {
        let k = m[i].0.clone();
        let v = m[i].1.clone();
        r.push((k, v));
        i = i + 1;
        assert(meta_view(m@.subrange(0, i as int)) =~= meta_view(m@.subrange(0, i - 1)).push(
            (m@[i - 1].0@, m@[i - 1].1@),
        ));
    }
    assert(m@.subrange(0, m.len() as int) =~= m@);
    r
}

impl PackageInfo {
    pub fn new(name: String, version: String, meta: Option<Vec<(String, String)>>) -> (r: Self)
        ensures
            r@ == (name@, version@, opt_meta_view(meta)),
    {
        PackageInfo { name, version, meta }
    }

    /// A copy of the description.
    pub fn duplicate(&self) -> (r: Self)
        ensures
            r@ == self@,
    {
        let meta = match &self.meta {
            Some(m) => Some(copy_meta(m)),
            None => None,
        };
        PackageInfo { name: self.name.clone(), version: self.version.clone(), meta }
    }
}

/// A filter over packages: each field that is given must match, absent
/// fields match anything.
pub struct PackageQuery {
    pub name: Option<String>,
    pub version: Option<String>,
    pub meta: Option<Vec<(String, String)>>,
}

impl View for PackageQuery {
    type V = QueryView;

    open spec fn view(&self) -> QueryView {
        (opt_str_view(self.name), opt_str_view(self.version), opt_meta_view(self.meta))
    }
}

/// Whether the pair `(k, v)` occurs in `m`.
pub fn meta_contains(m: &Vec<(String, String)>, k: &String, v: &String) -> (r: bool)
    ensures
        r == meta_has(meta_view(m@), k@, v@),
{
    let mut i: usize = 0;
    while i < m.len()
        invariant
            i <= m.len(),
            forall|j: int| 0 <= j < i ==> meta_view(m@)[j] != (k@, v@),
        decreases m.len() - i,
    {
        if m[i].0 == *k && m[i].1 == *v {
            assert(meta_view(m@)[i as int] == (k@, v@));
            return true;
        }
        i = i + 1;
    }
    false
}

impl PackageQuery {
    pub fn new(
        name: Option<String>,
        version: Option<String>,
        meta: Option<Vec<(String, String)>>,
    ) -> (r: Self)
        ensures
            r@ == (opt_str_view(name), opt_str_view(version), opt_meta_view(meta)),
    {
        PackageQuery { name, version, meta }
    }

    /// Whether the package described by `info` passes this filter.
    pub fn matches(&self, info: &PackageInfo) -> (r: bool)
        ensures
            r == query_matches(self@, info@),
    {
        if let Some(n) = &self.name {
            if *n != info.name {
                return false;
            }
        }
        if let Some(v) = &self.version {
            if *v != info.version {
                return false;
            }
        }
        if let Some(q) = &self.meta {
            let ghost qv = meta_view(q@);
            let mut i: usize = 0;
            while i < q.len()
                invariant
                    i <= q.len(),
                    qv == meta_view(q@),
                    self@.2 == Some(qv),
                    self@.0 matches Some(n) ==> n == info@.0,
                    self@.1 matches Some(v) ==> v == info@.1,
                    forall|j: int| 0 <= j < i ==> opt_meta_has(info@.2, (#[trigger] qv[j]).0, qv[j].1),
                decreases q.len() - i,
            {
                match &info.meta {
                    Some(m) => {
                        if !meta_contains(m, &q[i].0, &q[i].1) {
                            assert(qv[i as int] == (q@[i as int].0@, q@[i as int].1@));
                            return false;
                        }
                    },
                    None => {
                        assert(qv[i as int].0 == q@[i as int].0@);
                        return false;
                    },
                }
                i = i + 1;
            }
            assert(qv.len() == q@.len());
            assert(meta_matches(qv, info@.2));
        }
        true
    }
}

} // verus!
