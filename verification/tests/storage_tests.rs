//! Tests of one storage instance used directly.

use tempfile::TempDir;
use zenoh_backend_redb::{RedbBackendError, RedbStorage, RedbStorageConfig, StoredValue};

fn create_test_storage() -> (RedbStorage, TempDir) {
    let temp_dir = TempDir::new().unwrap();
    let db_path = temp_dir.path().join("test.redb");
    let config = RedbStorageConfig::default();
    let storage =
        RedbStorage::new(db_path.to_str().unwrap(), config, "test".to_string()).unwrap();
    (storage, temp_dir)
}

#[test]
fn test_put_and_get() {
    let (mut storage, _temp) = create_test_storage();

    let timestamp: u64 = 123456789;
    let encoding = "application/octet-stream".to_string();
    let payload = b"test data".to_vec();

    let value = StoredValue::new(payload.clone(), timestamp, encoding.clone());
    storage.put("test/key", value).unwrap();

    let retrieved = storage.get("test/key").unwrap().unwrap();
    assert_eq!(retrieved.payload, payload);
    assert_eq!(retrieved.timestamp, timestamp);
    assert_eq!(retrieved.encoding, encoding);
}

#[test]
fn test_delete() {
    let (mut storage, _temp) = create_test_storage();

    let value = StoredValue::new(b"data".to_vec(), 123456789, "application/octet-stream".to_string());
    storage.put("test/key", value).unwrap();

    storage.delete("test/key").unwrap();
    assert!(storage.get("test/key").unwrap().is_none());
}

#[test]
fn storage_test_get_all() {
    let (mut storage, _temp) = create_test_storage();

    let value1 = StoredValue::new(b"data1".to_vec(), 123456789, "application/octet-stream".to_string());
    let value2 = StoredValue::new(b"data2".to_vec(), 123456789, "application/octet-stream".to_string());

    storage.put("key1", value1).unwrap();
    storage.put("key2", value2).unwrap();

    let all = storage.get_all().unwrap();
    assert_eq!(all.len(), 2);
}

#[test]
fn storage_test_get_by_prefix() {
    let (mut storage, _temp) = create_test_storage();

    let value = StoredValue::new(b"data".to_vec(), 123456789, "application/octet-stream".to_string());

    storage.put("test/foo", value.clone()).unwrap();
    storage.put("test/bar", value.clone()).unwrap();
    storage.put("other/baz", value).unwrap();

    let results = storage.get_by_prefix("test/").unwrap();
    assert_eq!(results.len(), 2);
}

#[test]
fn test_count() {
    let (mut storage, _temp) = create_test_storage();

    let value = StoredValue::new(b"data".to_vec(), 123456789, "application/octet-stream".to_string());

    storage.put("key1", value.clone()).unwrap();
    storage.put("key2", value.clone()).unwrap();
    storage.put("key3", value).unwrap();

    assert_eq!(storage.count().unwrap(), 3);

    storage.delete("key2").unwrap();
    assert_eq!(storage.count().unwrap(), 2);
}

#[test]
fn test_clear() {
    let (mut storage, _temp) = create_test_storage();

    let value = StoredValue::new(b"data".to_vec(), 123456789, "application/octet-stream".to_string());

    storage.put("key1", value.clone()).unwrap();
    storage.put("key2", value).unwrap();

    storage.clear().unwrap();
    assert_eq!(storage.count().unwrap(), 0);
}

#[test]
fn test_delete_reports_presence() {
    let (mut storage, _temp) = create_test_storage();

    let value = StoredValue::new(b"data".to_vec(), 1, "t".to_string());
    storage.put("present", value).unwrap();

    assert!(storage.delete("present").unwrap());
    assert!(!storage.delete("present").unwrap());
    assert!(!storage.delete("never there").unwrap());
}

#[test]
fn test_put_batch_then_state() {
    let (mut storage, _temp) = create_test_storage();

    let entries = vec![
        ("k1".to_string(), StoredValue::new(b"v1".to_vec(), 1, "t".to_string())),
        ("k2".to_string(), StoredValue::new(b"v2".to_vec(), 2, "t".to_string())),
    ];
    storage.put_batch(&entries).unwrap();

    assert_eq!(storage.count().unwrap(), 2);
    assert_eq!(storage.get("k1").unwrap().unwrap().payload, b"v1".to_vec());
    assert_eq!(storage.get("k2").unwrap().unwrap().payload, b"v2".to_vec());
}

#[test]
fn test_put_batch_equals_sequential_puts() {
    let temp_dir = TempDir::new().unwrap();
    let mut batch_storage = RedbStorage::new(
        temp_dir.path().join("batch.redb").to_str().unwrap(),
        RedbStorageConfig::default(),
        "batch".to_string(),
    )
    .unwrap();
    let mut seq_storage = RedbStorage::new(
        temp_dir.path().join("seq.redb").to_str().unwrap(),
        RedbStorageConfig::default(),
        "seq".to_string(),
    )
    .unwrap();

    let entries = vec![
        ("a".to_string(), StoredValue::new(b"1".to_vec(), 1, "t".to_string())),
        ("b".to_string(), StoredValue::new(b"2".to_vec(), 2, "t".to_string())),
        ("a".to_string(), StoredValue::new(b"3".to_vec(), 3, "t".to_string())),
    ];
    batch_storage.put_batch(&entries).unwrap();
    for (k, v) in &entries {
        seq_storage.put(k, v.clone()).unwrap();
    }

    let mut batch_state = batch_storage
        .get_all()
        .unwrap()
        .into_iter()
        .map(|(k, v)| (k, v.payload, v.timestamp, v.encoding))
        .collect::<Vec<_>>();
    let mut seq_state = seq_storage
        .get_all()
        .unwrap()
        .into_iter()
        .map(|(k, v)| (k, v.payload, v.timestamp, v.encoding))
        .collect::<Vec<_>>();
    batch_state.sort();
    seq_state.sort();
    assert_eq!(batch_state, seq_state);
    // Within the batch, the later entry for "a" won.
    assert_eq!(batch_storage.get("a").unwrap().unwrap().payload, b"3".to_vec());
}

#[test]
fn test_put_batch_empty_is_noop() {
    let (mut storage, _temp) = create_test_storage();
    storage.put_batch(&vec![]).unwrap();
    assert_eq!(storage.count().unwrap(), 0);
}

#[test]
fn test_put_batch_oversized_encoding_rejected() {
    let (mut storage, _temp) = create_test_storage();
    let entries = vec![
        ("ok".to_string(), StoredValue::new(b"v".to_vec(), 1, "t".to_string())),
        ("bad".to_string(), StoredValue::new(b"v".to_vec(), 2, "y".repeat(65536))),
    ];
    let r = storage.put_batch(&entries);
    assert!(matches!(r, Err(RedbBackendError::ValueEncodingError(_))));
    // Nothing of the batch landed.
    assert_eq!(storage.count().unwrap(), 0);
}

#[test]
fn test_get_many_order_and_absence() {
    let (mut storage, _temp) = create_test_storage();
    storage
        .put("k1", StoredValue::new(b"v1".to_vec(), 1, "t".to_string()))
        .unwrap();
    storage
        .put("k3", StoredValue::new(b"v3".to_vec(), 3, "t".to_string()))
        .unwrap();

    let keys = vec!["k1".to_string(), "k2".to_string(), "k3".to_string()];
    let results = storage.get_many(&keys).unwrap();
    assert_eq!(results.len(), 3);
    assert_eq!(results[0].as_ref().unwrap().payload, b"v1".to_vec());
    assert!(results[1].is_none());
    assert_eq!(results[2].as_ref().unwrap().payload, b"v3".to_vec());

    assert_eq!(storage.get_many(&vec![]).unwrap().len(), 0);
}

#[test]
fn test_delete_many_counts_removed() {
    let (mut storage, _temp) = create_test_storage();
    for k in ["a", "b", "c"] {
        storage
            .put(k, StoredValue::new(b"v".to_vec(), 1, "t".to_string()))
            .unwrap();
    }
    let keys = vec![
        "a".to_string(),
        "missing".to_string(),
        "c".to_string(),
        "a".to_string(), // already removed by this same call
    ];
    let removed = storage.delete_many(&keys).unwrap();
    assert_eq!(removed, 2);
    assert_eq!(storage.count().unwrap(), 1);
    assert!(storage.get("b").unwrap().is_some());
}

#[test]
fn test_read_only_rejects_writes() {
    let temp_dir = TempDir::new().unwrap();
    let db_path = temp_dir.path().join("ro.redb");
    {
        let mut storage = RedbStorage::new(
            db_path.to_str().unwrap(),
            RedbStorageConfig::default(),
            "rw".to_string(),
        )
        .unwrap();
        storage
            .put("k", StoredValue::new(b"v".to_vec(), 1, "t".to_string()))
            .unwrap();
    }
    let ro_config = RedbStorageConfig::new().with_read_only(true).with_create_db(false);
    let mut storage =
        RedbStorage::new(db_path.to_str().unwrap(), ro_config, "ro".to_string()).unwrap();

    assert!(matches!(
        storage.put("k", StoredValue::new(b"w".to_vec(), 2, "t".to_string())),
        Err(RedbBackendError::ReadOnlyViolation)
    ));
    assert!(matches!(
        storage.delete("k"),
        Err(RedbBackendError::ReadOnlyViolation)
    ));
    assert!(matches!(storage.clear(), Err(RedbBackendError::ReadOnlyViolation)));
    assert!(matches!(
        storage.put_batch(&vec![]),
        Err(RedbBackendError::ReadOnlyViolation)
    ));
    assert!(matches!(
        storage.delete_many(&vec!["k".to_string()]),
        Err(RedbBackendError::ReadOnlyViolation)
    ));
    // Reads still work.
    assert!(storage.get("k").unwrap().is_some());
}

#[test]
fn test_open_at_invalid_path_fails() {
    let temp_dir = TempDir::new().unwrap();
    // The path names the directory itself, which cannot be a database file.
    let r = RedbStorage::new(
        temp_dir.path().to_str().unwrap(),
        RedbStorageConfig::default(),
        "bad".to_string(),
    );
    assert!(matches!(r, Err(RedbBackendError::DatabaseError(_))));
}

#[test]
fn test_storage_accessors() {
    let (storage, _temp) = create_test_storage();
    assert_eq!(storage.name(), "test");
    assert_eq!(storage.config().table_name, "zenoh_kv");
}

#[test]
fn test_stored_value_accessors() {
    let v = StoredValue::new(b"p".to_vec(), 5, "e".to_string());
    assert_eq!(v.payload(), b"p");
    assert_eq!(v.timestamp(), 5);
    assert_eq!(v.encoding(), "e");
}

#[test]
fn test_empty_table_name_rejected() {
    let temp_dir = TempDir::new().unwrap();
    let db_path = temp_dir.path().join("t.redb");
    let config = RedbStorageConfig::new().with_table_name(String::new());
    let r = RedbStorage::new(db_path.to_str().unwrap(), config, "t".to_string());
    assert!(matches!(r, Err(RedbBackendError::ConfigError(_))));
    // A write-free variant is rejected the same way before any file is touched.
    let ro = RedbStorageConfig::new()
        .with_table_name(String::new())
        .with_read_only(true)
        .with_create_db(false);
    let r = RedbStorage::new(db_path.to_str().unwrap(), ro, "t".to_string());
    assert!(matches!(r, Err(RedbBackendError::ConfigError(_))));
}
