//! Error taxonomy shared by the codec, the transport, the worker and the
//! materializer.
use vstd::prelude::*;

verus! {

/// What a relational store reports about a failed database operation.
#[derive(Debug, Clone, Copy, PartialEq, Eq, Structural)]
pub enum DbErrorKind {
    UniqueViolation,
    ForeignKeyViolation,
    NotNullViolation,
    CheckViolation,
    Other,
}

/// A store failure, as plain values: the shape of the error that the
/// relational store's client hands back.
#[derive(Debug, Clone)]
pub enum StoreFailure {
    /// The database rejected the statement; `message` is its own text,
    /// `debug` the full rendering of the failure.
    Database { kind: DbErrorKind, message: String, debug: String },
    RowNotFound,
    TypeNotFound { name: String },
    ColumnNotFound(String),
    /// Any other failure (connection, protocol, pool), rendered for logs.
    Other { debug: String },
}

#[derive(Debug, Clone)]
pub enum UtilError {
    SqlError(String),
    SqlDuplicateRecord(String),
    SqlRelationMissing(String),
    SqlNotNullViolation(String),
    SqlCheckFailed(String),
    SqlFailedToFindRecord,
    RedisNotConfigured,
    SqlFailedToFindColumn(String),
    SqlFailedToFindType(String),
    /// The stream transport failed (connection refused, timeout, protocol).
    Transport(String),
    /// A stream reply did not have the shape of a read-group reply.
    RedisStreamParams,
    /// A field/value list does not describe a message of the target type.
    MalformedParams,
    /// No row of the join view matches the filter.
    RowCantMaterialize,
}

/// The error that a store failure maps to: constraint violations keep the
/// database's message under their own variant, lookups that found nothing
/// keep the missing name, everything else becomes a generic SQL error.
pub open spec fn store_error_spec(f: StoreFailure) -> UtilError {
    match f {
        StoreFailure::Database { kind, message, debug } => match kind {
            DbErrorKind::UniqueViolation => UtilError::SqlDuplicateRecord(message),
            DbErrorKind::ForeignKeyViolation => UtilError::SqlRelationMissing(message),
            DbErrorKind::NotNullViolation => UtilError::SqlNotNullViolation(message),
            DbErrorKind::CheckViolation => UtilError::SqlCheckFailed(message),
            DbErrorKind::Other => UtilError::SqlError(debug),
        },
        StoreFailure::RowNotFound => UtilError::SqlFailedToFindRecord,
        StoreFailure::TypeNotFound { name } => UtilError::SqlFailedToFindType(name),
        StoreFailure::ColumnNotFound(s) => UtilError::SqlFailedToFindColumn(s),
        StoreFailure::Other { debug } => UtilError::SqlError(debug),
    }
}

impl From<StoreFailure> for UtilError {
    fn from(f: StoreFailure) -> (r: UtilError)
        ensures
            r == store_error_spec(f),
    {
        match f {
            StoreFailure::Database { kind, message, debug } => match kind {
                DbErrorKind::UniqueViolation => UtilError::SqlDuplicateRecord(message),
                DbErrorKind::ForeignKeyViolation => UtilError::SqlRelationMissing(message),
                DbErrorKind::NotNullViolation => UtilError::SqlNotNullViolation(message),
                DbErrorKind::CheckViolation => UtilError::SqlCheckFailed(message),
                DbErrorKind::Other => UtilError::SqlError(debug),
            },
            StoreFailure::RowNotFound => UtilError::SqlFailedToFindRecord,
            StoreFailure::TypeNotFound { name } => UtilError::SqlFailedToFindType(name),
            StoreFailure::ColumnNotFound(s) => UtilError::SqlFailedToFindColumn(s),
            StoreFailure::Other { debug } => UtilError::SqlError(debug),
        }
    }
}

impl vstd::std_specs::convert::FromSpecImpl<StoreFailure> for UtilError {
    open spec fn obeys_from_spec() -> bool {
        true
    }

    open spec fn from_spec(f: StoreFailure) -> UtilError {
        store_error_spec(f)
    }
}

/// Errors of the model layer.
#[derive(Debug, Clone)]
pub enum ModelError {
    RowCantMaterialize,
    Util(UtilError),
}

impl From<UtilError> for ModelError {
    fn from(e: UtilError) -> (r: ModelError)
        ensures
            r == ModelError::Util(e),
    {
        ModelError::Util(e)
    }
}

impl vstd::std_specs::convert::FromSpecImpl<UtilError> for ModelError {
    open spec fn obeys_from_spec() -> bool {
        true
    }

    open spec fn from_spec(e: UtilError) -> ModelError {
        ModelError::Util(e)
    }
}

} // verus!
