use vstd::prelude::*;
use vstd::utf8::{encode_utf8, is_ascii_chars_encode_utf8};

use crate::config::BackendConfig;
use crate::error::{engine_error, ConfigError, EngineFailure, EngineStage, PackageBackendError};
use crate::package::{meta_view, opt_meta_view, MetaView, PackageData};

verus! {

/// A character that may stand in an SQL identifier without quoting.
pub open spec fn ident_char(c: char) -> bool {
    ||| ('a' <= c && c <= 'z')
    ||| ('A' <= c && c <= 'Z')
    ||| ('0' <= c && c <= '9')
    ||| c == '_'
}

/// A namespace can name tables as it stands: non-empty, made of letters,
/// digits and underscores, and not starting with a digit.
pub open spec fn valid_namespace(s: Seq<char>) -> bool {
    &&& s.len() > 0
    &&& !('0' <= s[0] && s[0] <= '9')
    &&& forall|i: int| 0 <= i < s.len() ==> ident_char(#[trigger] s[i])
}

fn ident_byte(b: u8) -> (r: bool)
    ensures
        r == ((97 <= b && b <= 122) || (65 <= b && b <= 90) || (48 <= b && b <= 57) || b == 95),
{
    (97 <= b && b <= 122) || (65 <= b && b <= 90) || (48 <= b && b <= 57) || b == 95
}

/// Whether `ns` can name the tables of a namespace.
pub fn is_valid_namespace(ns: &str) -> (r: bool)
    ensures
        r == valid_namespace(ns@),
{
    if !ns.is_ascii() {
        proof {
            let i = choose|i: int| 0 <= i < ns@.len() && !('\0' <= #[trigger] ns@[i] <= '\u{7f}');
            assert(!ident_char(ns@[i]));
        }
        return false;
    }
    let bytes = ns.as_bytes();
    proof {
        is_ascii_chars_encode_utf8(ns@);
    }
    if bytes.len() == 0 {
        return false;
    }
    if 48 <= bytes[0] && bytes[0] <= 57 {
        assert(ns@[0] as u8 == bytes@[0]);
        return false;
    }
    let mut i: usize = 0;
    while i < bytes.len()
        invariant
            i <= bytes.len(),
            bytes@ == encode_utf8(ns@),
            bytes@.len() == ns@.len(),
            forall|j: int| 0 <= j < ns@.len() ==> ns@[j] as u8 == #[trigger] bytes@[j],
            forall|j: int| 0 <= j < ns@.len() ==> '\0' <= #[trigger] ns@[j] <= '\u{7f}',
            forall|j: int| 0 <= j < i ==> ident_char(#[trigger] ns@[j]),
        decreases bytes.len() - i,
    {
        if !ident_byte(bytes[i]) {
            assert(ns@[i as int] as u8 == bytes@[i as int]);
            return false;
        }
        assert(ns@[i as int] as u8 == bytes@[i as int]);
        i = i + 1;
    }
    assert(ns@[0] as u8 == bytes@[0]);
    true
}

/// The statements that provision the namespace: the package table, its
/// indexes on name, on version and (unique) on both, and the metadata table
/// with a unique index on package and key. Each object is created only where
/// it is absent.
pub open spec fn schema_text(ns: Seq<char>) -> Seq<char> {
    "CREATE TABLE IF NOT EXISTS "@ + ns + " (id INTEGER PRIMARY KEY, name TEXT NOT NULL, version TEXT NOT NULL, data BLOB NOT NULL, created TEXT DEFAULT CURRENT_TIMESTAMP); CREATE INDEX IF NOT EXISTS "@ + ns + "_nm ON "@ + ns + "(name); CREATE INDEX IF NOT EXISTS "@ + ns + "_ver ON "@ + ns + "(version); CREATE UNIQUE INDEX IF NOT EXISTS "@ + ns + "_nm_ver_uq ON "@ + ns + "(name, version); CREATE TABLE IF NOT EXISTS "@ + ns + "_meta (package INTEGER NOT NULL, key TEXT NOT NULL, value TEXT NOT NULL, FOREIGN KEY(package) REFERENCES "@ + ns + "(id)); CREATE UNIQUE INDEX IF NOT EXISTS "@ + ns + "_meta_uq ON "@ + ns + "_meta(package, key);"@
}

/// Inserts a package row from name, version and bytes.
pub open spec fn insert_package_text(ns: Seq<char>) -> Seq<char> {
    "INSERT INTO "@ + ns + " (name, version, data) VALUES (?1, ?2, ?3)"@
}

/// Inserts a metadata row from package id, key and value.
pub open spec fn insert_meta_text(ns: Seq<char>) -> Seq<char> {
    "INSERT INTO "@ + ns + "_meta (package, key, value) VALUES (?1, ?2, ?3)"@
}

/// Counts the packages of the namespace.
pub open spec fn count_text(ns: Seq<char>) -> Seq<char> {
    "SELECT count(*) FROM "@ + ns
}

/// Lists id, name and version of every package, oldest first.
pub open spec fn select_all_text(ns: Seq<char>) -> Seq<char> {
    "SELECT id, name, version FROM "@ + ns + " ORDER BY id"@
}

/// Reads id and bytes of the package with a name and a version.
pub open spec fn select_package_text(ns: Seq<char>) -> Seq<char> {
    "SELECT id, data FROM "@ + ns + " WHERE name = ?1 AND version = ?2"@
}

/// Reads the metadata pairs of a package id.
pub open spec fn select_meta_text(ns: Seq<char>) -> Seq<char> {
    "SELECT key, value FROM "@ + ns + "_meta WHERE package = ?1 ORDER BY rowid"@
}

/// Overwrites the bytes of a package id.
pub open spec fn update_data_text(ns: Seq<char>) -> Seq<char> {
    "UPDATE "@ + ns + " SET data = ?1 WHERE id = ?2"@
}

/// Deletes the metadata rows of a package id.
pub open spec fn delete_meta_text(ns: Seq<char>) -> Seq<char> {
    "DELETE FROM "@ + ns + "_meta WHERE package = ?1"@
}

/// Deletes the package row of an id.
pub open spec fn delete_package_text(ns: Seq<char>) -> Seq<char> {
    "DELETE FROM "@ + ns + " WHERE id = ?1"@
}

/// The storage of the SQLite backend: the path of its database file.
pub struct PackageBackendSqlite {
    path: String,
}

impl View for PackageBackendSqlite {
    type V = Seq<char>;

    closed spec fn view(&self) -> Seq<char> {
        self.path@
    }
}

impl PackageBackendSqlite {
    /// The backend for the file that `config` names.
    pub fn config(config: BackendConfig) -> (r: Self)
        ensures
            r@ == config.url@,
    {
        PackageBackendSqlite { path: config.url }
    }

    /// The typed settings of the backend: the database path is required.
    pub fn resolve(config: BackendConfig) -> (r: Result<Self, ConfigError>)
        ensures
            r is Ok <==> config.url@.len() > 0,
            r matches Ok(b) ==> b@ == config.url@,
            r matches Err(e) ==> e == ConfigError::Load,
    {
        if config.url.as_str().is_empty() {
            return Err(ConfigError::Load);
        }
        Ok(PackageBackendSqlite::config(config))
    }

    /// The path of the database file.
    pub fn path(&self) -> (r: &String)
        ensures
            r@ == self@,
    {
        &self.path
    }
}

/// A namespace that has been checked to name tables as it stands.
pub struct SqliteNamespace {
    name: String,
}

impl View for SqliteNamespace {
    type V = Seq<char>;

    closed spec fn view(&self) -> Seq<char> {
        self.name@
    }
}

/// A value bound to a parameter of a statement.
pub enum SqlValue {
    Text(String),
    Blob(Vec<u8>),
    Integer(i64),
    /// The id of the package row that the first statement of a plan inserted.
    PackageId,
}

/// One statement and the values of its parameters, in order.
pub struct SqlStatement {
    pub sql: String,
    pub params: Vec<SqlValue>,
}

pub open spec fn is_text(v: SqlValue, s: Seq<char>) -> bool {
    v matches SqlValue::Text(t) && t@ == s
}

/// The value that keys a metadata row: the package row `id` where it is
/// known, else the row that the first statement of the plan inserted.
pub open spec fn package_key(package: Option<i64>) -> SqlValue {
    match package {
        Some(id) => SqlValue::Integer(id),
        None => SqlValue::PackageId,
    }
}

/// `st` inserts the metadata pair `kv` for the package that `package` keys.
pub open spec fn inserts_meta(
    ns: Seq<char>,
    st: SqlStatement,
    package: Option<i64>,
    kv: (Seq<char>, Seq<char>),
) -> bool {
    &&& st.sql@ == insert_meta_text(ns)
    &&& st.params@.len() == 3
    &&& st.params@[0] == package_key(package)
    &&& is_text(st.params@[1], kv.0)
    &&& is_text(st.params@[2], kv.1)
}

/// `plan[start..]` inserts the metadata pairs `m` for the package that
/// `package` keys, one statement each, in order.
pub open spec fn inserts_all_meta(
    ns: Seq<char>,
    plan: Seq<SqlStatement>,
    start: int,
    package: Option<i64>,
    m: MetaView,
) -> bool {
    &&& plan.len() == start + m.len()
    &&& forall|i: int| 0 <= i < m.len() ==> inserts_meta(ns, #[trigger] plan[start + i], package, m[i])
}

pub open spec fn meta_pairs(m: Option<MetaView>) -> MetaView {
    match m {
        Some(s) => s,
        None => Seq::empty(),
    }
}

impl SqliteNamespace {
    /// The namespace `ns`, where it can name tables; provisioning fails
    /// otherwise.
    pub fn new(ns: &str) -> (r: Result<Self, PackageBackendError>)
        ensures
            r is Ok <==> valid_namespace(ns@),
            r matches Ok(n) ==> n@ == ns@,
            r matches Err(e) ==> e == PackageBackendError::Schema,
    {
        if is_valid_namespace(ns) {
            Ok(SqliteNamespace { name: ns.to_owned() })
        } else {
            Err(PackageBackendError::Schema)
        }
    }

    /// The statements that provision the namespace: the package table, its
    /// indexes on name, on version and (unique) on both, and the metadata table
    /// with a unique index on package and key. Each object is created only where
    /// it is absent.
    pub fn schema_sql(&self) -> (r: String)
        ensures
            r@ == schema_text(self@),
    {
        let ns = self.name.as_str();
        let mut r = String::from_str("CREATE TABLE IF NOT EXISTS ");
        r.append(ns);
        r.append(" (id INTEGER PRIMARY KEY, name TEXT NOT NULL, version TEXT NOT NULL, data BLOB NOT NULL, created TEXT DEFAULT CURRENT_TIMESTAMP); CREATE INDEX IF NOT EXISTS ");
        r.append(ns);
        r.append("_nm ON ");
        r.append(ns);
        r.append("(name); CREATE INDEX IF NOT EXISTS ");
        r.append(ns);
        r.append("_ver ON ");
        r.append(ns);
        r.append("(version); CREATE UNIQUE INDEX IF NOT EXISTS ");
        r.append(ns);
        r.append("_nm_ver_uq ON ");
        r.append(ns);
        r.append("(name, version); CREATE TABLE IF NOT EXISTS ");
        r.append(ns);
        r.append("_meta (package INTEGER NOT NULL, key TEXT NOT NULL, value TEXT NOT NULL, FOREIGN KEY(package) REFERENCES ");
        r.append(ns);
        r.append("(id)); CREATE UNIQUE INDEX IF NOT EXISTS ");
        r.append(ns);
        r.append("_meta_uq ON ");
        r.append(ns);
        r.append("_meta(package, key);");
        r
    }

    /// Inserts a package row from name, version and bytes.
    pub fn insert_package_sql(&self) -> (r: String)
        ensures
            r@ == insert_package_text(self@),
    {
        let ns = self.name.as_str();
        let mut r = String::from_str("INSERT INTO ");
        r.append(ns);
        r.append(" (name, version, data) VALUES (?1, ?2, ?3)");
        r
    }

    /// Inserts a metadata row from package id, key and value.
    pub fn insert_meta_sql(&self) -> (r: String)
        ensures
            r@ == insert_meta_text(self@),
    {
        let ns = self.name.as_str();
        let mut r = String::from_str("INSERT INTO ");
        r.append(ns);
        r.append("_meta (package, key, value) VALUES (?1, ?2, ?3)");
        r
    }

    /// Counts the packages of the namespace.
    pub fn count_sql(&self) -> (r: String)
        ensures
            r@ == count_text(self@),
    {
        let ns = self.name.as_str();
        let mut r = String::from_str("SELECT count(*) FROM ");
        r.append(ns);
        r
    }

    /// Lists id, name and version of every package, oldest first.
    pub fn select_all_sql(&self) -> (r: String)
        ensures
            r@ == select_all_text(self@),
    {
        let ns = self.name.as_str();
        let mut r = String::from_str("SELECT id, name, version FROM ");
        r.append(ns);
        r.append(" ORDER BY id");
        r
    }

    /// Reads id and bytes of the package with a name and a version.
    pub fn select_package_sql(&self) -> (r: String)
        ensures
            r@ == select_package_text(self@),
    {
        let ns = self.name.as_str();
        let mut r = String::from_str("SELECT id, data FROM ");
        r.append(ns);
        r.append(" WHERE name = ?1 AND version = ?2");
        r
    }

    /// Reads the metadata pairs of a package id.
    pub fn select_meta_sql(&self) -> (r: String)
        ensures
            r@ == select_meta_text(self@),
    {
        let ns = self.name.as_str();
        let mut r = String::from_str("SELECT key, value FROM ");
        r.append(ns);
        r.append("_meta WHERE package = ?1 ORDER BY rowid");
        r
    }

    /// Overwrites the bytes of a package id.
    pub fn update_data_sql(&self) -> (r: String)
        ensures
            r@ == update_data_text(self@),
    {
        let ns = self.name.as_str();
        let mut r = String::from_str("UPDATE ");
        r.append(ns);
        r.append(" SET data = ?1 WHERE id = ?2");
        r
    }

    /// Deletes the metadata rows of a package id.
    pub fn delete_meta_sql(&self) -> (r: String)
        ensures
            r@ == delete_meta_text(self@),
    {
        let ns = self.name.as_str();
        let mut r = String::from_str("DELETE FROM ");
        r.append(ns);
        r.append("_meta WHERE package = ?1");
        r
    }

    /// Deletes the package row of an id.
    pub fn delete_package_sql(&self) -> (r: String)
        ensures
            r@ == delete_package_text(self@),
    {
        let ns = self.name.as_str();
        let mut r = String::from_str("DELETE FROM ");
        r.append(ns);
        r.append(" WHERE id = ?1");
        r
    }

    fn push_meta_inserts(
        &self,
        plan: &mut Vec<SqlStatement>,
        package: Option<i64>,
        meta: &Option<Vec<(String, String)>>,
    )
        ensures
            final(plan)@.subrange(0, old(plan)@.len() as int) == old(plan)@,
            inserts_all_meta(
                self@,
                final(plan)@,
                old(plan)@.len() as int,
                package,
                meta_pairs(opt_meta_view(*meta)),
            ),
    {
        let ghost start = plan@.len() as int;
        let ghost prefix = plan@;
        if let Some(m) = meta {
            let ghost mv = meta_view(m@);
            let mut i: usize = 0;
            while i < m.len()
                invariant
                    i <= m.len(),
                    mv == meta_view(m@),
                    mv.len() == m.len(),
                    start == prefix.len(),
                    plan@.len() == start + i,
                    plan@.subrange(0, start) == prefix,
                    forall|j: int| 0 <= j < i ==> inserts_meta(self@, #[trigger] plan@[start + j], package, mv[j]),
                decreases m.len() - i,
            {
                let mut params: Vec<SqlValue> = Vec::new();
                let key = match package {
                    Some(id) => SqlValue::Integer(id),
                    None => SqlValue::PackageId,
                };
                params.push(key);
                params.push(SqlValue::Text(m[i].0.clone()));
                params.push(SqlValue::Text(m[i].1.clone()));
                let st = SqlStatement { sql: self.insert_meta_sql(), params };
                assert(inserts_meta(self@, st, package, mv[i as int]));
                plan.push(st);
                assert(plan@.subrange(0, start) =~= prefix);
                i = i + 1;
            }
        } else {
            assert(plan@.subrange(0, start) =~= prefix);
        }
    }

    /// The statements that save `data`, to run in this order inside one
    /// transaction: the package row first, then one row for each metadata
    /// pair, keyed by the id that the first statement produced.
    pub fn save_plan(&self, data: &PackageData) -> (r: Vec<SqlStatement>)
        ensures
            r@.len() >= 1,
            r@[0].sql@ == insert_package_text(self@),
            r@[0].params@.len() == 3,
            is_text(r@[0].params@[0], data@.1.0),
            is_text(r@[0].params@[1], data@.1.1),
            r@[0].params@[2] matches SqlValue::Blob(b) && b@ == data@.0,
            inserts_all_meta(self@, r@, 1, None, meta_pairs(data@.1.2)),
    {
        let mut params: Vec<SqlValue> = Vec::new();
        params.push(SqlValue::Text(data.info.name.clone()));
        params.push(SqlValue::Text(data.info.version.clone()));
        let bytes = data.data.clone();
        assert(bytes@ =~= data.data@);
        params.push(SqlValue::Blob(bytes));
        let mut plan: Vec<SqlStatement> = Vec::new();
        plan.push(SqlStatement { sql: self.insert_package_sql(), params });
        self.push_meta_inserts(&mut plan, None, &data.info.meta);
        assert(plan@[0] == plan@.subrange(0, 1)[0]);
        plan
    }

    /// The statements that replace the bytes and metadata of the package row
    /// `id` by those of `data`, to run in this order inside one transaction:
    /// the bytes, the removal of the old metadata, then one row for each new
    /// pair, keyed by `id`.
    pub fn replace_plan(&self, id: i64, data: &PackageData) -> (r: Vec<SqlStatement>)
        ensures
            r@.len() >= 2,
            r@[0].sql@ == update_data_text(self@),
            r@[0].params@.len() == 2,
            r@[0].params@[0] matches SqlValue::Blob(b) && b@ == data@.0,
            r@[0].params@[1] == SqlValue::Integer(id),
            r@[1].sql@ == delete_meta_text(self@),
            r@[1].params@ == seq![SqlValue::Integer(id)],
            inserts_all_meta(self@, r@, 2, Some(id), meta_pairs(data@.1.2)),
    {
        let mut params: Vec<SqlValue> = Vec::new();
        let bytes = data.data.clone();
        assert(bytes@ =~= data.data@);
        params.push(SqlValue::Blob(bytes));
        params.push(SqlValue::Integer(id));
        let mut plan: Vec<SqlStatement> = Vec::new();
        plan.push(SqlStatement { sql: self.update_data_sql(), params });
        let mut del: Vec<SqlValue> = Vec::new();
        del.push(SqlValue::Integer(id));
        assert(del@ =~= seq![SqlValue::Integer(id)]);
        plan.push(SqlStatement { sql: self.delete_meta_sql(), params: del });
        self.push_meta_inserts(&mut plan, Some(id), &data.info.meta);
        assert(plan@[0] == plan@.subrange(0, 2)[0]);
        assert(plan@[1] == plan@.subrange(0, 2)[1]);
        plan
    }

    /// The statements that remove the package row `id` with its metadata, to
    /// run in this order inside one transaction.
    pub fn remove_plan(&self, id: i64) -> (r: Vec<SqlStatement>)
        ensures
            r@.len() == 2,
            r@[0].sql@ == delete_meta_text(self@),
            r@[0].params@ == seq![SqlValue::Integer(id)],
            r@[1].sql@ == delete_package_text(self@),
            r@[1].params@ == seq![SqlValue::Integer(id)],
    {
        let mut plan: Vec<SqlStatement> = Vec::new();
        let mut meta_params: Vec<SqlValue> = Vec::new();
        meta_params.push(SqlValue::Integer(id));
        assert(meta_params@ =~= seq![SqlValue::Integer(id)]);
        plan.push(SqlStatement { sql: self.delete_meta_sql(), params: meta_params });
        let mut row_params: Vec<SqlValue> = Vec::new();
        row_params.push(SqlValue::Integer(id));
        assert(row_params@ =~= seq![SqlValue::Integer(id)]);
        plan.push(SqlStatement { sql: self.delete_package_sql(), params: row_params });
        plan
    }
}

/// What the driver of a write transaction does next.
#[derive(Debug, Clone, Copy, PartialEq, Eq, Structural)]
pub enum TxAction {
    /// Run the statement at this index of the plan, with `bound_params`.
    Execute(usize),
    /// Commit the transaction.
    Commit,
    /// Roll the transaction back and report the error.
    RollBack(PackageBackendError),
    /// The transaction is committed.
    Done,
}

/// What the engine reported for the last action.
#[derive(Debug, Clone, Copy, PartialEq, Eq, Structural)]
pub enum TxEvent {
    /// The statement ran; `row_id` is the id of the last row inserted.
    Executed(i64),
    /// The transaction was committed.
    Committed,
    /// The statement or the commit failed.
    Failed(EngineFailure),
}

/// The progress of one write transaction over a plan: statements run in
/// order, the first statement's row id is bound to the later ones, the
/// commit comes only after the last statement, and any failure rolls the
/// whole transaction back.
pub struct SqliteTransaction {
    plan: Vec<SqlStatement>,
    next: usize,
    package_id: Option<i64>,
    committed: bool,
    failed: Option<PackageBackendError>,
}

pub open spec fn bound_value(v: SqlValue, package_id: Option<i64>, b: SqlValue) -> bool {
    match v {
        SqlValue::PackageId => match package_id {
            Some(id) => b == SqlValue::Integer(id),
            None => b is PackageId,
        },
        SqlValue::Text(t) => b matches SqlValue::Text(u) && u@ == t@,
        SqlValue::Blob(x) => b matches SqlValue::Blob(y) && y@ == x@,
        SqlValue::Integer(i) => b == SqlValue::Integer(i),
    }
}

fn bind_value(v: &SqlValue, package_id: Option<i64>) -> (r: SqlValue)
    ensures
        bound_value(*v, package_id, r),
{
    match v {
        SqlValue::PackageId => match package_id {
            Some(id) => SqlValue::Integer(id),
            None => SqlValue::PackageId,
        },
        SqlValue::Text(t) => SqlValue::Text(t.clone()),
        SqlValue::Blob(x) => {
            let y = x.clone();
            assert(y@ =~= x@);
            SqlValue::Blob(y)
        },
        SqlValue::Integer(i) => SqlValue::Integer(*i),
    }
}

impl SqliteTransaction {
    /// The plan that the transaction runs.
    pub closed spec fn plan(&self) -> Seq<SqlStatement> {
        self.plan@
    }

    /// How many statements of the plan have run.
    pub closed spec fn executed(&self) -> nat {
        self.next as nat
    }

    /// The row id of the first statement, once it has run.
    pub closed spec fn package_id(&self) -> Option<i64> {
        self.package_id
    }

    pub closed spec fn is_committed(&self) -> bool {
        self.committed
    }

    /// The error that ended the transaction, if one did.
    pub closed spec fn failure(&self) -> Option<PackageBackendError> {
        self.failed
    }

    pub closed spec fn wf(&self) -> bool {
        &&& self.next <= self.plan@.len()
        &&& (self.committed ==> self.next == self.plan@.len() && self.failed is None)
        &&& (self.next == 0 ==> self.package_id is None)
    }

    /// The action that the state calls for.
    pub open spec fn action_of(&self) -> TxAction {
        if let Some(e) = self.failure() {
            TxAction::RollBack(e)
        } else if self.is_committed() {
            TxAction::Done
        } else if self.executed() < self.plan().len() {
            TxAction::Execute(self.executed() as usize)
        } else {
            TxAction::Commit
        }
    }

    /// A transaction over `plan` that has not started.
    pub fn new(plan: Vec<SqlStatement>) -> (r: Self)
        ensures
            r.wf(),
            r.plan() == plan@,
            r.executed() == 0,
            r.package_id() is None,
            !r.is_committed(),
            r.failure() is None,
    {
        SqliteTransaction { plan, next: 0, package_id: None, committed: false, failed: None }
    }

    /// What to do next.
    pub fn action(&self) -> (r: TxAction)
        requires
            self.wf(),
        ensures
            r == self.action_of(),
    {
        if let Some(e) = self.failed {
            TxAction::RollBack(e)
        } else if self.committed {
            TxAction::Done
        } else if self.next < self.plan.len() {
            TxAction::Execute(self.next)
        } else {
            TxAction::Commit
        }
    }

    /// The statement at `i`, its parameters bound: the row id of the first
    /// statement stands for `PackageId` once it is known.
    pub fn statement(&self, i: usize) -> (r: (&String, Vec<SqlValue>))
        requires
            i < self.plan().len(),
        ensures
            r.0@ == self.plan()[i as int].sql@,
            r.1@.len() == self.plan()[i as int].params@.len(),
            forall|j: int|
                0 <= j < r.1@.len() ==> bound_value(
                    self.plan()[i as int].params@[j],
                    self.package_id(),
                    #[trigger] r.1@[j],
                ),
    {
        let st = &self.plan[i];
        let mut out: Vec<SqlValue> = Vec::new();
        let mut j: usize = 0;
        while j < st.params.len()
            invariant
                j <= st.params.len(),
                out@.len() == j,
                forall|k: int| 0 <= k < j ==> bound_value(st.params@[k], self.package_id, #[trigger] out@[k]),
            decreases st.params.len() - j,
        {
            out.push(bind_value(&st.params[j], self.package_id));
            j = j + 1;
        }
        (&st.sql, out)
    }

    /// Takes the engine's report of the last action into account.
    pub fn record(&mut self, event: TxEvent)
        requires
            old(self).wf(),
            old(self).action_of() is Execute || old(self).action_of() is Commit,
        ensures
            final(self).wf(),
            final(self).plan() == old(self).plan(),
            match event {
                TxEvent::Failed(f) => final(self).failure() == Some(
                    engine_error(f, EngineStage::Operation),
                ) && final(self).executed() == old(self).executed(),
                TxEvent::Executed(row_id) => old(self).action_of() is Execute ==> {
                    &&& final(self).executed() == old(self).executed() + 1
                    &&& final(self).failure() is None
                    &&& !final(self).is_committed()
                    &&& final(self).package_id() == (if old(self).executed() == 0 {
                        Some(row_id)
                    } else {
                        old(self).package_id()
                    })
                },
                TxEvent::Committed => old(self).action_of() is Commit ==> final(self).is_committed()
                    && final(self).failure() is None,
            },
    {
        match event {
            TxEvent::Failed(f) => {
                self.failed = Some(PackageBackendError::from_engine(f, EngineStage::Operation));
            },
            TxEvent::Executed(row_id) => {
                if self.next < self.plan.len() {
                    if self.next == 0 {
                        self.package_id = Some(row_id);
                    }
                    self.next = self.next + 1;
                }
            },
            TxEvent::Committed => {
                if self.next == self.plan.len() {
                    self.committed = true;
                }
            },
        }
    }
}

} // verus!
