//! Tests of the glob matcher and the key transform.

use zenoh_backend_redb::keyspace::{decode_key, encode_key};
use zenoh_backend_redb::matcher::{matches_parts, matches_wildcard};
use zenoh_backend_redb::{RedbBackendError, RedbStorage, RedbStorageConfig};

#[test]
fn test_wildcard_matching() {
    assert!(RedbStorage::matches_wildcard("a/b/c", "a/b/c"));
    assert!(RedbStorage::matches_wildcard("a/b/c", "a/*/c"));
    assert!(RedbStorage::matches_wildcard("a/b/c", "a/**/c"));
    assert!(RedbStorage::matches_wildcard("a/b/c/d", "a/**/d"));
    assert!(!RedbStorage::matches_wildcard("a/b/c", "a/b/d"));
}

#[test]
fn test_matches_parts_function() {
    let key_parts = vec!["a", "b", "c"];
    let pattern_parts = vec!["a", "*", "c"];
    assert!(matches_parts(&key_parts, &pattern_parts));
}

#[test]
fn test_wildcard_semantics_values() {
    assert!(matches_wildcard("a/b/c", "a/*/c"));
    assert!(!matches_wildcard("a/b/c", "a/x/c"));
    assert!(matches_wildcard("a/c", "a/**/c"));
    assert!(matches_wildcard("a/b/x/c", "a/**/c"));
    assert!(!matches_wildcard("a/b/c/d", "a/*/c"));
}

#[test]
fn test_wildcard_edge_cases() {
    assert!(matches_wildcard("", ""));
    assert!(matches_wildcard("a", "**"));
    assert!(matches_wildcard("a/b/c", "**"));
    assert!(matches_wildcard("", "**"));
    assert!(!matches_wildcard("a/b", "a"));
    assert!(!matches_wildcard("a", "a/b"));
    // Empty segments are kept and must match literally.
    assert!(matches_wildcard("a//b", "a/*/b"));
    assert!(matches_wildcard("a//b", "a//b"));
    assert!(!matches_wildcard("a/b", "a//b"));
    // A `*` consumes exactly one segment.
    assert!(!matches_wildcard("a", "a/*"));
    assert!(matches_wildcard("a/b", "a/*"));
    // Literal star inside a longer segment is not a wildcard.
    assert!(!matches_wildcard("a/bc", "a/*c"));
}

#[test]
fn test_wildcard_non_ascii() {
    assert!(matches_wildcard("café/naïve", "café/*"));
    assert!(!matches_wildcard("café/naïve", "cafe/*"));
}

#[test]
fn test_key_transform_round_trip() {
    let cfg = RedbStorageConfig::new()
        .with_key_expr("demo/app/".to_string())
        .with_strip_prefix(true);
    let stored = encode_key(&cfg, "demo/app/sensor/temp");
    assert_eq!(stored, b"sensor/temp".to_vec());
    let back = decode_key(&cfg, &stored).unwrap();
    assert_eq!(back, "demo/app/sensor/temp");
}

#[test]
fn test_key_transform_without_stripping() {
    let cfg = RedbStorageConfig::new();
    let stored = encode_key(&cfg, "demo/app/sensor/temp");
    assert_eq!(stored, b"demo/app/sensor/temp".to_vec());
    let back = decode_key(&cfg, &stored).unwrap();
    assert_eq!(back, "demo/app/sensor/temp");
}

#[test]
fn test_key_transform_prefix_mismatch_stores_unchanged() {
    let cfg = RedbStorageConfig::new()
        .with_key_expr("demo/app/".to_string())
        .with_strip_prefix(true);
    let stored = encode_key(&cfg, "other/key");
    assert_eq!(stored, b"other/key".to_vec());
}

#[test]
fn test_decode_key_invalid_utf8() {
    let cfg = RedbStorageConfig::new();
    let r = decode_key(&cfg, &[0xFF, 0xFE]);
    assert!(matches!(r, Err(RedbBackendError::KeyEncodingError(_))));
}
