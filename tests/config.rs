use serval::config::{BackendConfig, Config};
use serval::error::{ApplicationError, ConfigError, EngineFailure, EngineStage, PackageBackendError};
use serval::package::{meta_contains, PackageInfo, PackageQuery};
use serval::sqlite::{
    is_valid_namespace, PackageBackendSqlite, SqlValue, SqliteNamespace, SqliteTransaction, TxAction,
    TxEvent,
};
use serval::package::PackageData;

#[test]
fn default_config_selects_sqlite() {
    let c = Config::default();
    assert_eq!(c.backend, "sqlite");
    let b = c.backend_config().unwrap();
    assert_eq!(b.url, "./serval.sqlite");
    let d = Config::default_backend_configs();
    assert_eq!(d.len(), 1);
    assert_eq!(d[0].0, "sqlite");
}

#[test]
fn missing_backend_is_a_load_error() {
    let c = Config { backend: "postgres".to_string(), backends: Config::default_backend_configs() };
    assert!(matches!(c.backend_config(), Err(ConfigError::Load)));
    assert_eq!(ConfigError::Load.message(), "Could not load config");
}

#[test]
fn first_entry_wins() {
    let c = Config {
        backend: "sqlite".to_string(),
        backends: vec![
            ("file".to_string(), BackendConfig::new("/srv".to_string())),
            ("sqlite".to_string(), BackendConfig::new("a.db".to_string())),
            ("sqlite".to_string(), BackendConfig::new("b.db".to_string())),
        ],
    };
    assert_eq!(c.backend_config().unwrap().url, "a.db");
}

#[test]
fn sqlite_backend_needs_a_path() {
    let b = PackageBackendSqlite::resolve(BackendConfig::new("reg.db".to_string())).unwrap();
    assert_eq!(b.path(), "reg.db");
    let e = PackageBackendSqlite::resolve(BackendConfig::new(String::new()));
    assert!(matches!(e, Err(ConfigError::Load)));
    let c = PackageBackendSqlite::config(BackendConfig::new("x.db".to_string()));
    assert_eq!(c.path(), "x.db");
}

#[test]
fn namespace_validation() {
    assert!(is_valid_namespace("temp"));
    assert!(is_valid_namespace("_npm_2"));
    assert!(!is_valid_namespace(""));
    assert!(!is_valid_namespace("2npm"));
    assert!(!is_valid_namespace("a b"));
    assert!(!is_valid_namespace("t;DROP"));
    assert!(!is_valid_namespace("caf\u{e9}"));
    assert!(matches!(SqliteNamespace::new("a-b"), Err(PackageBackendError::Schema)));
}

#[test]
fn statement_text() {
    let ns = SqliteNamespace::new("temp").unwrap();
    assert_eq!(ns.insert_package_sql(), "INSERT INTO temp (name, version, data) VALUES (?1, ?2, ?3)");
    assert_eq!(ns.insert_meta_sql(), "INSERT INTO temp_meta (package, key, value) VALUES (?1, ?2, ?3)");
    assert_eq!(ns.count_sql(), "SELECT count(*) FROM temp");
    assert_eq!(ns.delete_package_sql(), "DELETE FROM temp WHERE id = ?1");
    let schema = ns.schema_sql();
    assert!(schema.starts_with("CREATE TABLE IF NOT EXISTS temp (id INTEGER PRIMARY KEY"));
    assert!(schema.contains("CREATE UNIQUE INDEX IF NOT EXISTS temp_nm_ver_uq ON temp(name, version);"));
    assert!(schema.contains("CREATE TABLE IF NOT EXISTS temp_meta ("));
}

#[test]
fn save_plan_orders_package_before_meta() {
    let ns = SqliteNamespace::new("temp").unwrap();
    let meta = vec![("foo".to_string(), "1".to_string()), ("bar".to_string(), "2".to_string())];
    let data = PackageData::new(vec![0, 1], PackageInfo::new("p".to_string(), "1.0".to_string(), Some(meta)));
    let plan = ns.save_plan(&data);
    assert_eq!(plan.len(), 3);
    assert_eq!(plan[0].sql, ns.insert_package_sql());
    assert!(matches!(&plan[0].params[2], SqlValue::Blob(b) if *b == vec![0, 1]));
    assert!(matches!(&plan[0].params[0], SqlValue::Text(t) if t == "p"));
    assert_eq!(plan[2].sql, ns.insert_meta_sql());
    assert!(matches!(plan[2].params[0], SqlValue::PackageId));
    assert!(matches!(&plan[2].params[1], SqlValue::Text(t) if t == "bar"));
    let replace = ns.replace_plan(7, &data);
    assert_eq!(replace.len(), 4);
    assert!(matches!(replace[0].params[1], SqlValue::Integer(7)));
    assert_eq!(replace[1].sql, "DELETE FROM temp_meta WHERE package = ?1");
    assert_eq!(replace[2].sql, ns.insert_meta_sql());
    assert!(matches!(replace[2].params[0], SqlValue::Integer(7)));
    assert!(matches!(&replace[2].params[1], SqlValue::Text(t) if t == "foo"));
    assert!(matches!(&replace[2].params[2], SqlValue::Text(t) if t == "1"));
    assert!(matches!(replace[3].params[0], SqlValue::Integer(7)));
    assert!(matches!(&replace[3].params[1], SqlValue::Text(t) if t == "bar"));
}

#[test]
fn query_matching() {
    let meta = vec![("a".to_string(), "1".to_string())];
    let info = PackageInfo::new("p".to_string(), "1".to_string(), Some(meta.clone()));
    assert!(meta_contains(&meta, &"a".to_string(), &"1".to_string()));
    assert!(!meta_contains(&meta, &"a".to_string(), &"2".to_string()));
    assert!(PackageQuery::new(None, None, Some(vec![])).matches(&info));
    assert!(!PackageQuery::new(None, Some("2".to_string()), None).matches(&info));
    let bare = PackageInfo::new("p".to_string(), "1".to_string(), None);
    assert!(!PackageQuery::new(None, None, Some(meta)).matches(&bare));
}

#[test]
fn application_errors_wrap_both_kinds() {
    let a = ApplicationError::Config(ConfigError::Load);
    let b = ApplicationError::Backend(PackageBackendError::NotFound);
    assert_ne!(a, b);
}

fn two_pair_plan() -> Vec<serval::sqlite::SqlStatement> {
    let ns = SqliteNamespace::new("temp").unwrap();
    let meta = vec![("foo".to_string(), "foo".to_string()), ("bar".to_string(), "bar".to_string())];
    let data = PackageData::new(vec![0, 1, 2, 3, 4], PackageInfo::new("foopkg".to_string(), "1.0.0".to_string(), Some(meta)));
    ns.save_plan(&data)
}

#[test]
fn transaction_commits_after_every_statement() {
    let mut tx = SqliteTransaction::new(two_pair_plan());
    assert_eq!(tx.action(), TxAction::Execute(0));
    tx.record(TxEvent::Executed(42));
    assert_eq!(tx.action(), TxAction::Execute(1));
    let (sql, params) = tx.statement(1);
    assert_eq!(sql, "INSERT INTO temp_meta (package, key, value) VALUES (?1, ?2, ?3)");
    assert!(matches!(params[0], SqlValue::Integer(42)));
    assert!(matches!(&params[1], SqlValue::Text(t) if t == "foo"));
    tx.record(TxEvent::Executed(43));
    tx.record(TxEvent::Executed(44));
    let (_, params) = tx.statement(2);
    assert!(matches!(params[0], SqlValue::Integer(42)));
    assert_eq!(tx.action(), TxAction::Commit);
    tx.record(TxEvent::Committed);
    assert_eq!(tx.action(), TxAction::Done);
}

#[test]
fn transaction_rolls_back_on_metadata_failure() {
    let mut tx = SqliteTransaction::new(two_pair_plan());
    tx.record(TxEvent::Executed(1));
    tx.record(TxEvent::Failed(EngineFailure::ConstraintViolation));
    assert_eq!(tx.action(), TxAction::RollBack(PackageBackendError::Constraint));
}

#[test]
fn engine_failures_map_to_backend_errors() {
    let err = PackageBackendError::from_engine;
    assert_eq!(err(EngineFailure::Other, EngineStage::Connect), PackageBackendError::Connection);
    assert_eq!(err(EngineFailure::ConstraintViolation, EngineStage::Connect), PackageBackendError::Connection);
    assert_eq!(err(EngineFailure::CannotOpen, EngineStage::Provision), PackageBackendError::Connection);
    assert_eq!(err(EngineFailure::Other, EngineStage::Provision), PackageBackendError::Schema);
    assert_eq!(err(EngineFailure::ConstraintViolation, EngineStage::Operation), PackageBackendError::Constraint);
    assert_eq!(err(EngineFailure::NoRows, EngineStage::Operation), PackageBackendError::NotFound);
    assert_eq!(err(EngineFailure::Other, EngineStage::Operation), PackageBackendError::Transport);
    assert_eq!(err(EngineFailure::CannotOpen, EngineStage::Operation), PackageBackendError::Connection);
}

#[test]
fn replace_transaction_keys_metadata_by_id() {
    let ns = SqliteNamespace::new("temp").unwrap();
    let meta = vec![("k".to_string(), "v".to_string())];
    let data = PackageData::new(vec![3], PackageInfo::new("p".to_string(), "1".to_string(), Some(meta)));
    let mut tx = SqliteTransaction::new(ns.replace_plan(5, &data));
    tx.record(TxEvent::Executed(99));
    tx.record(TxEvent::Executed(99));
    assert_eq!(tx.action(), TxAction::Execute(2));
    let (_, params) = tx.statement(2);
    assert!(matches!(params[0], SqlValue::Integer(5)));
}
