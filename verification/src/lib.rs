//! Embedded key-value storage for hierarchically named keys.
//!
//! Values are stored under `/`-delimited path keys inside a transactional
//! embedded database, one database file per storage instance. Storages are
//! created and looked up by name through a backend registry. Keys can be
//! queried exactly, by prefix, or by glob pattern (`*` matches one segment,
//! `**` matches any number of segments).

use vstd::prelude::*;

pub mod backend;
pub mod codec;
pub mod config;
pub mod error;
pub mod keyspace;
pub mod kv;
pub mod matcher;
pub mod plugin;
pub mod storage;

pub use backend::RedbBackend;
pub use codec::StoredValue;
pub use config::{RedbBackendConfig, RedbStorageConfig};
pub use error::RedbBackendError;
pub use plugin::{DEFAULT_ROOT_DIR, RedbBackendPlugin, SCOPE_ENV_VAR};
pub use storage::RedbStorage;

verus! {

/// Version of this crate.
pub const VERSION: &'static str = "0.1.0";

/// Name of the backend.
pub const BACKEND_NAME: &'static str = "redb";

} // verus!
