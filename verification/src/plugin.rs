//! Integration constants for the host messaging router.
//!
//! The host loads this backend as a storage volume and configures it with
//! the properties named here. The router may hand over operations without a
//! key; those are stored under one reserved sentinel key so that absent and
//! present keys never collide.

use vstd::prelude::*;

verus! {

/// The environment variable that configures the root directory for all
/// storages of this backend.
pub const SCOPE_ENV_VAR: &'static str = "ZENOH_BACKEND_REDB_ROOT";

/// The default root directory, under the host's home directory, when the
/// environment variable is not set.
pub const DEFAULT_ROOT_DIR: &'static str = "zenoh_backend_redb";

/// Storage configuration property: directory of the database file.
pub const PROP_STORAGE_DIR: &'static str = "dir";

/// Storage configuration property: database file name.
pub const PROP_STORAGE_DB_FILE: &'static str = "db_file";

/// Storage configuration property: create the database when missing.
pub const PROP_STORAGE_CREATE_DB: &'static str = "create_db";

/// Storage configuration property: refuse writes.
pub const PROP_STORAGE_READ_ONLY: &'static str = "read_only";

/// Storage configuration property: cache size in bytes.
pub const PROP_STORAGE_CACHE_SIZE: &'static str = "cache_size";

/// Storage configuration property: flush commits to durable storage.
pub const PROP_STORAGE_FSYNC: &'static str = "fsync";

/// The reserved key under which an operation without a key is stored.
pub const NONE_KEY: &'static str = "@@none_key@@";

/// The storage key for an operation of the router: the key it names, or
/// the reserved sentinel when it names none, so that absent and present
/// keys never collide.
pub fn key_or_none(key: Option<String>) -> (r: String)
    ensures
        key matches Some(k) ==> r@ == k@,
        key is None ==> r@ == "@@none_key@@"@,
{
    match key {
        Some(k) => k,
        None => "@@none_key@@".to_owned(),
    }
}

/// The plugin face of this backend towards the host router.
pub struct RedbBackendPlugin {}

impl RedbBackendPlugin {
    /// The name the host knows this plugin under.
    pub const DEFAULT_NAME: &'static str = "redb_backend";

    /// The plugin version.
    pub const PLUGIN_VERSION: &'static str = "0.1.0";

    /// The plugin version together with the backend name.
    pub const PLUGIN_LONG_VERSION: &'static str = "zenoh_backend_redb 0.1.0";
}

} // verus!
