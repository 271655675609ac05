use vstd::prelude::*;

verus! {

/// Errors that stop the application around the storage layer.
#[derive(Debug, Clone, Copy, PartialEq, Eq, Structural)]
#[non_exhaustive]
pub enum ApplicationError {
    /// The configuration could not be resolved.
    Config(ConfigError),
    /// The storage backend failed.
    Backend(PackageBackendError),
}

/// Malformed or incomplete backend configuration.
#[derive(Debug, Clone, Copy, PartialEq, Eq, Structural)]
#[non_exhaustive]
pub enum ConfigError {
    /// A required configuration entry is missing.
    Load,
}

impl ConfigError {
    /// A human readable description of the error.
    pub fn message(&self) -> (r: String)
        ensures
            r@ == "Could not load config"@,
    {
        match self {
            ConfigError::Load => String::from_str("Could not load config"),
        }
    }
}

/// Errors of a storage backend.
#[derive(Debug, Clone, Copy, PartialEq, Eq, Structural)]
#[non_exhaustive]
pub enum PackageBackendError {
    /// The underlying session could not be established.
    Connection,
    /// Provisioning the storage objects of a namespace failed.
    Schema,
    /// A uniqueness constraint was violated.
    Constraint,
    /// The requested package does not exist in the namespace.
    NotFound,
    /// Any other failure of the underlying engine.
    Transport,
}

/// How the storage engine reported a failed call.
#[derive(Debug, Clone, Copy, PartialEq, Eq, Structural)]
pub enum EngineFailure {
    /// The database could not be opened or reached.
    CannotOpen,
    /// A constraint of the schema refused a write.
    ConstraintViolation,
    /// A query that must return a row returned none.
    NoRows,
    /// Anything else.
    Other,
}

/// The step of the backend's lifecycle in which the engine failed.
#[derive(Debug, Clone, Copy, PartialEq, Eq, Structural)]
pub enum EngineStage {
    /// Establishing the session.
    Connect,
    /// Creating the namespace's storage objects.
    Provision,
    /// An operation of a live backend.
    Operation,
}

/// The backend error for an engine failure: any failure to establish the
/// session, and an engine that cannot be reached later, is a connection
/// error; any other failure while provisioning is a schema error; in an
/// operation a constraint violation, a missing row and anything else are a
/// constraint, not-found and transport error.
pub open spec fn engine_error(f: EngineFailure, stage: EngineStage) -> PackageBackendError {
    match (stage, f) {
        (EngineStage::Connect, _) => PackageBackendError::Connection,
        (_, EngineFailure::CannotOpen) => PackageBackendError::Connection,
        (EngineStage::Provision, _) => PackageBackendError::Schema,
        (_, EngineFailure::ConstraintViolation) => PackageBackendError::Constraint,
        (_, EngineFailure::NoRows) => PackageBackendError::NotFound,
        (_, _) => PackageBackendError::Transport,
    }
}

impl PackageBackendError {
    /// The backend error for an engine failure in the step `stage`.
    pub fn from_engine(f: EngineFailure, stage: EngineStage) -> (r: Self)
        ensures
            r == engine_error(f, stage),
    {
        match stage {
            EngineStage::Connect => PackageBackendError::Connection,
            EngineStage::Provision => match f {
                EngineFailure::CannotOpen => PackageBackendError::Connection,
                _ => PackageBackendError::Schema,
            },
            EngineStage::Operation => match f {
                EngineFailure::CannotOpen => PackageBackendError::Connection,
                EngineFailure::ConstraintViolation => PackageBackendError::Constraint,
                EngineFailure::NoRows => PackageBackendError::NotFound,
                EngineFailure::Other => PackageBackendError::Transport,
            },
        }
    }
}

} // verus!
