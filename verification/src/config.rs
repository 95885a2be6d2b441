//! Configuration for the backend and its storage instances.
//!
//! Paths are carried as plain strings; the caller that touches the file
//! system turns them into its own path values.

use vstd::prelude::*;
use vstd::string::StringExecFns;

verus! {

/// Configuration of the backend.
#[derive(Debug)]
pub struct RedbBackendConfig {
    /// Base directory under which database files are placed.
    pub base_dir: String,
    /// Whether the base directory should be created when missing.
    pub create_dir: bool,
    /// Default configuration for storages, overridable per storage.
    pub default_storage_config: RedbStorageConfig,
}

/// Configuration of a single storage instance.
#[derive(Debug)]
pub struct RedbStorageConfig {
    /// Database file name; when absent the storage name is used.
    pub db_file: Option<String>,
    /// Full path of the database file; overrides `base_dir` and `db_file`.
    pub db_path: Option<String>,
    /// Cache size hint in bytes for the underlying database.
    pub cache_size: Option<usize>,
    /// Whether commits flush to durable storage.
    pub fsync: bool,
    /// Key expression prefix of this storage.
    pub key_expr: Option<String>,
    /// Whether the `key_expr` prefix is stripped from stored keys.
    pub strip_prefix: bool,
    /// Name of the table inside the database.
    pub table_name: String,
    /// Whether a missing database file is created.
    pub create_db: bool,
    /// Whether the storage refuses writes.
    pub read_only: bool,
}

/// What the default storage configuration holds.
pub open spec fn is_default_storage_config(c: RedbStorageConfig) -> bool {
    &&& c.db_file is None
    &&& c.db_path is None
    &&& c.cache_size is None
    &&& c.fsync == true
    &&& c.key_expr is None
    &&& c.strip_prefix == false
    &&& c.table_name@ == "zenoh_kv"@
    &&& c.create_db == true
    &&& c.read_only == false
}

impl Clone for RedbStorageConfig {
    /// A clone equals the configuration it was made from.
    fn clone(&self) -> (r: Self)
        ensures
            r == *self,
    {
        RedbStorageConfig {
            db_file: match &self.db_file {
                Some(f) => Some(f.clone()),
                None => None,
            },
            db_path: match &self.db_path {
                Some(p) => Some(p.clone()),
                None => None,
            },
            cache_size: self.cache_size,
            fsync: self.fsync,
            key_expr: match &self.key_expr {
                Some(k) => Some(k.clone()),
                None => None,
            },
            strip_prefix: self.strip_prefix,
            table_name: self.table_name.clone(),
            create_db: self.create_db,
            read_only: self.read_only,
        }
    }
}

impl Clone for RedbBackendConfig {
    /// A clone equals the configuration it was made from.
    fn clone(&self) -> (r: Self)
        ensures
            r == *self,
    {
        RedbBackendConfig {
            base_dir: self.base_dir.clone(),
            create_dir: self.create_dir,
            default_storage_config: self.default_storage_config.clone(),
        }
    }
}

impl Default for RedbStorageConfig {
    /// The default storage configuration: no explicit file or path, fsync
    /// on, no prefix handling, the conventional table name, create the
    /// database when missing, writable.
    fn default() -> (r: Self)
        ensures
            is_default_storage_config(r),
    {
        RedbStorageConfig {
            db_file: None,
            db_path: None,
            cache_size: None,
            fsync: true,
            key_expr: None,
            strip_prefix: false,
            table_name: "zenoh_kv".to_owned(),
            create_db: true,
            read_only: false,
        }
    }
}

impl Default for RedbBackendConfig {
    /// The default backend configuration: a conventional base directory that
    /// is created when missing, and default storage settings.
    fn default() -> (r: Self)
        ensures
            r.base_dir@ == "./zenoh_redb_backend"@,
            r.create_dir == true,
            is_default_storage_config(r.default_storage_config),
    {
        RedbBackendConfig {
            base_dir: "./zenoh_redb_backend".to_owned(),
            create_dir: true,
            default_storage_config: RedbStorageConfig::default(),
        }
    }
}

impl RedbBackendConfig {
    /// Create a new configuration with default values.
    pub fn new() -> (r: Self)
        ensures
            r.base_dir@ == "./zenoh_redb_backend"@,
            r.create_dir == true,
            is_default_storage_config(r.default_storage_config),
    {
        Self::default()
    }

    /// Set the base directory for databases.
    pub fn with_base_dir(self, base_dir: String) -> (r: Self)
        ensures
            r == (RedbBackendConfig { base_dir, ..self }),
    {
        RedbBackendConfig { base_dir, ..self }
    }

    /// Set whether to create the directory if it does not exist.
    pub fn with_create_dir(self, create_dir: bool) -> (r: Self)
        ensures
            r == (RedbBackendConfig { create_dir, ..self }),
    {
        RedbBackendConfig { create_dir, ..self }
    }

    /// Set the default storage configuration.
    pub fn with_default_storage_config(self, config: RedbStorageConfig) -> (r: Self)
        ensures
            r == (RedbBackendConfig { default_storage_config: config, ..self }),
    {
        RedbBackendConfig { default_storage_config: config, ..self }
    }
}

impl RedbStorageConfig {
    /// Create a new storage configuration with default values.
    pub fn new() -> (r: Self)
        ensures
            is_default_storage_config(r),
    {
        Self::default()
    }

    /// Set the database file name.
    pub fn with_db_file(self, db_file: String) -> (r: Self)
        ensures
            r == (RedbStorageConfig { db_file: Some(db_file), ..self }),
    {
        RedbStorageConfig { db_file: Some(db_file), ..self }
    }

    /// Set the full database path.
    pub fn with_db_path(self, db_path: String) -> (r: Self)
        ensures
            r == (RedbStorageConfig { db_path: Some(db_path), ..self }),
    {
        RedbStorageConfig { db_path: Some(db_path), ..self }
    }

    /// Set the cache size in bytes.
    pub fn with_cache_size(self, cache_size: usize) -> (r: Self)
        ensures
            r == (RedbStorageConfig { cache_size: Some(cache_size), ..self }),
    {
        RedbStorageConfig { cache_size: Some(cache_size), ..self }
    }

    /// Set whether to flush commits to durable storage.
    pub fn with_fsync(self, fsync: bool) -> (r: Self)
        ensures
            r == (RedbStorageConfig { fsync, ..self }),
    {
        RedbStorageConfig { fsync, ..self }
    }

    /// Set the key expression prefix.
    pub fn with_key_expr(self, key_expr: String) -> (r: Self)
        ensures
            r == (RedbStorageConfig { key_expr: Some(key_expr), ..self }),
    {
        RedbStorageConfig { key_expr: Some(key_expr), ..self }
    }

    /// Set whether to strip the prefix from stored keys.
    pub fn with_strip_prefix(self, strip_prefix: bool) -> (r: Self)
        ensures
            r == (RedbStorageConfig { strip_prefix, ..self }),
    {
        RedbStorageConfig { strip_prefix, ..self }
    }

    /// Set the table name.
    pub fn with_table_name(self, table_name: String) -> (r: Self)
        ensures
            r == (RedbStorageConfig { table_name, ..self }),
    {
        RedbStorageConfig { table_name, ..self }
    }

    /// Set whether to create the database if it does not exist.
    pub fn with_create_db(self, create_db: bool) -> (r: Self)
        ensures
            r == (RedbStorageConfig { create_db, ..self }),
    {
        RedbStorageConfig { create_db, ..self }
    }

    /// Set read-only mode.
    pub fn with_read_only(self, read_only: bool) -> (r: Self)
        ensures
            r == (RedbStorageConfig { read_only, ..self }),
    {
        RedbStorageConfig { read_only, ..self }
    }

    /// The effective database path of a storage: the explicit `db_path` when
    /// set, else the base directory joined with `db_file` (or the storage
    /// name) plus the database file extension.
    pub open spec fn spec_effective_db_path(
        self,
        storage_name: Seq<char>,
        base_dir: Seq<char>,
    ) -> Seq<char> {
        if self.db_path is Some {
            self.db_path->Some_0@
        } else {
            let file = if self.db_file is Some {
                self.db_file->Some_0@
            } else {
                storage_name
            };
            base_dir + "/"@ + file + ".redb"@
        }
    }

    /// Compute the effective database path for a storage name under the
    /// given backend configuration.
    pub fn effective_db_path(&self, storage_name: &str, backend_config: &RedbBackendConfig) -> (r:
        String)
        ensures
            r@ == self.spec_effective_db_path(storage_name@, backend_config.base_dir@),
    {
        match &self.db_path {
            Some(p) => p.clone(),
            None => {
                let file: String = match &self.db_file {
                    Some(f) => f.clone(),
                    None => storage_name.to_owned(),
                };
                backend_config.base_dir.clone().concat("/").concat(file.as_str()).concat(".redb")
            },
        }
    }
}

} // verus!
