//! Error taxonomy for the storage backend.
//!
//! Failures of the underlying embedded database are carried as messages in
//! the engine-related variants; the remaining variants describe conditions
//! detected by this crate itself.

use vstd::prelude::*;

verus! {

/// Every way an operation of this crate can fail.
#[derive(Debug, Clone)]
pub enum RedbBackendError {
    /// Failure while opening or creating a database file.
    DatabaseError(String),
    /// Failure while opening or deleting a table.
    TableError(String),
    /// Failure of the underlying storage engine during reads or writes.
    StorageError(String),
    /// Failure while committing a write transaction.
    CommitError(String),
    /// Failure while beginning a transaction.
    TransactionError(String),
    /// An invalid configuration value.
    ConfigError(String),
    /// A malformed on-disk value blob.
    SerializationError(String),
    /// An on-disk key that is not valid UTF-8.
    KeyEncodingError(String),
    /// A value that cannot be encoded, such as an oversized encoding tag.
    ValueEncodingError(String),
    /// A syntactically invalid key expression.
    InvalidKeyExpression(String),
    /// A storage name that is not registered.
    StorageNotFound(String),
    /// A write attempted on a read-only storage.
    ReadOnlyViolation,
    /// An input/output failure outside the storage engine.
    IoError(String),
    /// A failure reported by the host messaging layer.
    ZenohError(String),
    /// Any other failure.
    Other(String),
}

impl RedbBackendError {
    /// Create a configuration error.
    pub fn config(msg: String) -> (r: Self)
        ensures
            r == RedbBackendError::ConfigError(msg),
    {
        RedbBackendError::ConfigError(msg)
    }

    /// Create a serialization error.
    pub fn serialization(msg: String) -> (r: Self)
        ensures
            r == RedbBackendError::SerializationError(msg),
    {
        RedbBackendError::SerializationError(msg)
    }

    /// Create a key encoding error.
    pub fn key_encoding(msg: String) -> (r: Self)
        ensures
            r == RedbBackendError::KeyEncodingError(msg),
    {
        RedbBackendError::KeyEncodingError(msg)
    }

    /// Create a value encoding error.
    pub fn value_encoding(msg: String) -> (r: Self)
        ensures
            r == RedbBackendError::ValueEncodingError(msg),
    {
        RedbBackendError::ValueEncodingError(msg)
    }

    /// Create an invalid key expression error.
    pub fn invalid_key(msg: String) -> (r: Self)
        ensures
            r == RedbBackendError::InvalidKeyExpression(msg),
    {
        RedbBackendError::InvalidKeyExpression(msg)
    }

    /// Create a storage not found error.
    pub fn storage_not_found(name: String) -> (r: Self)
        ensures
            r == RedbBackendError::StorageNotFound(name),
    {
        RedbBackendError::StorageNotFound(name)
    }

    /// Create an error of the host messaging layer.
    pub fn zenoh(msg: String) -> (r: Self)
        ensures
            r == RedbBackendError::ZenohError(msg),
    {
        RedbBackendError::ZenohError(msg)
    }

    /// Create a generic error.
    pub fn other(msg: String) -> (r: Self)
        ensures
            r == RedbBackendError::Other(msg),
    {
        RedbBackendError::Other(msg)
    }
}

} // verus!
