//! The native connector.

use rdmas::connector::native::{hash_lmcache_key, RDMANativeConnector};
use rdmas::engine::layout::HashedKey;

// -----------------------------------------------------------------------
// Key hashing tests
// -----------------------------------------------------------------------

#[test]
fn test_hash_lmcache_key_nonzero() {
    let key = "llama-7b@0000000c@0@a1b2c3d4";
    let hk = hash_lmcache_key(key);
    assert_ne!(hk.hash, 0, "hash should be non-zero for non-empty key");
}

#[test]
fn test_hash_deterministic() {
    let key = "test_key";
    let h1 = hash_lmcache_key(key);
    let h2 = hash_lmcache_key(key);
    assert_eq!(h1.hash, h2.hash, "hash must be deterministic");
    assert_eq!(h1.digest, h2.digest, "digest must be deterministic");
}

#[test]
fn test_hash_different_keys_produce_different_hashes() {
    let h1 = hash_lmcache_key("key_a");
    let h2 = hash_lmcache_key("key_b");
    assert_ne!(h1.hash, h2.hash, "different keys should (almost always) hash differently");
}

#[test]
fn test_hash_empty_key() {
    let hk = hash_lmcache_key("");
    // Empty key still produces a valid (non-zero) hash via XXH64.
    assert_ne!(hk.hash, 0);
}

#[test]
fn test_hash_digest_structure() {
    let key = "my_model@00000001@0@abcdef01";
    let hk = hash_lmcache_key(key);
    // digest[0..8] = hash (we re-store it), digest[8..16] = secondary hash.
    // Verify digest[0..8] matches the primary hash.
    let primary_bytes = &hk.digest[0..8];
    let primary_from_digest = u64::from_le_bytes(primary_bytes.try_into().unwrap());
    assert_eq!(primary_from_digest, hk.hash);
}

// -----------------------------------------------------------------------
// Batches
// -----------------------------------------------------------------------

#[test]
fn test_new_connector() {
    let mut connector = RDMANativeConnector::new(2, 16777216);
    assert_eq!(connector.num_workers(), 2);
    assert_eq!(connector.batch_chunk_num_bytes(), 16777216);
    connector.close();
}

#[test]
fn test_batch_set_and_exists() {
    let mut connector = RDMANativeConnector::new(2, 16777216);

    let keys: Vec<String> = vec!["key_a".into(), "key_b".into(), "key_c".into()];

        let values: Vec<Vec<u8>> = vec![
        b"value_a".to_vec(),
        b"value_b".to_vec(),
        b"value_c".to_vec(),
    ];

    let fid = connector.submit_batch_set(&keys, &values);
    assert!(fid > 0);

    let fid_exists = connector.submit_batch_exists(&keys);
    assert!(fid_exists > 0);

    let completions = connector.drain_completions();
    // We should have 2 completions: one for set, one for exists.
    assert_eq!(completions.len(), 2);

    // The exists completion should have all true.
    let exists_result = completions
        .iter()
        .find(|(fid, _, _, _)| *fid == fid_exists)
        .expect("exists completion not found");
    assert!(exists_result.1, "exists operation should succeed");
    assert_eq!(
        exists_result.3,
        Some(vec![true, true, true]),
        "all three keys should exist"
    );

    connector.close();
}

#[test]
fn test_batch_set_and_get_existence() {
    let mut connector = RDMANativeConnector::new(2, 16777216);

    let keys: Vec<String> = vec!["get_test_key".into()];

    let values: Vec<Vec<u8>> = vec![
        b"get_test_value".to_vec(),
    ];
    connector.submit_batch_set(&keys, &values);

    let fid_get = connector.submit_batch_get(&keys);
    let completions = connector.drain_completions();
    let get_result = completions
        .iter()
        .find(|(fid, _, _, _)| *fid == fid_get)
        .expect("get completion not found");
    assert_eq!(get_result.3, Some(vec![true]), "key should exist");

    connector.close();
}

#[test]
fn test_batch_delete() {
    let mut connector = RDMANativeConnector::new(2, 16777216);

    let keys: Vec<String> = vec!["del_key".into()];

    let values: Vec<Vec<u8>> = vec![
        b"value_to_delete".to_vec(),
    ];
    connector.submit_batch_set(&keys, &values);

    let fid_del = connector.submit_batch_delete(&keys);
    let fid_exists = connector.submit_batch_exists(&keys);

    let completions = connector.drain_completions();
    let del_result = completions
        .iter()
        .find(|(fid, _, _, _)| *fid == fid_del)
        .expect("delete completion not found");
    assert_eq!(del_result.3, Some(vec![true]), "delete of existing key should succeed");

    let exists_result = completions
        .iter()
        .find(|(fid, _, _, _)| *fid == fid_exists)
        .expect("exists completion not found");
    assert_eq!(
        exists_result.3,
        Some(vec![false]),
        "key should no longer exist after delete"
    );

    connector.close();
}

#[test]
fn test_delete_nonexistent_key() {
    let mut connector = RDMANativeConnector::new(2, 16777216);

    let keys: Vec<String> = vec!["nonexistent".into()];
    let fid = connector.submit_batch_delete(&keys);

    let completions = connector.drain_completions();
    let result = completions
        .iter()
        .find(|(f, _, _, _)| *f == fid)
        .expect("completion not found");

    assert_eq!(result.3, Some(vec![false]), "deleting nonexistent key should return false");
    connector.close();
}

#[test]
fn test_close_idempotent() {
    let mut connector = RDMANativeConnector::new(2, 16777216);

    connector.close();
    // Second close should not panic.
    connector.close();
}

#[test]
fn test_large_value_extent_path() {
    let mut connector = RDMANativeConnector::new(2, 1024 * 1024);

    // Create a value larger than 32 bytes -> should use Extent path.
    let large_value = vec![0xABu8; 128];
    let keys: Vec<String> = vec!["large_key".into()];

    let values: Vec<Vec<u8>> = vec![
        large_value.clone(),
    ];
    connector.submit_batch_set(&keys, &values);

    // Verify the key exists.
    let fid = connector.submit_batch_exists(&keys);
    let completions = connector.drain_completions();
    let result = completions
        .iter()
        .find(|(f, _, _, _)| *f == fid)
        .expect("completion not found");
    assert_eq!(result.3, Some(vec![true]), "large value key should exist");

    connector.close();
}

#[test]
fn a_new_connector_takes_a_large_value() {
    let mut connector = RDMANativeConnector::new(1, 64);
    let keys = vec!["large".to_string(), "small".to_string()];
    let values = vec![vec![7u8; 500], vec![8u8; 16]];
    let id = connector.submit_batch_set(&keys, &values);
    assert_eq!(id, 1);
    let done = connector.drain_completions();
    assert_eq!(done.len(), 1);
    assert!(done[0].1);
    connector.submit_batch_exists(&keys);
    assert_eq!(connector.drain_completions()[0].3, Some(vec![true, true]));
}

#[test]
fn a_refused_key_is_not_stored_and_no_other_is_lost() {
    let mut connector = RDMANativeConnector::new(1, 4096);
    // These keys share both of their candidate buckets.
    let keys: Vec<HashedKey> = (0..3u64)
        .map(|i| HashedKey { hash: 2 + (i << 20), digest: [i as u8; 16] })
        .collect();
    connector.submit_hashed_set(&keys, &[vec![1u8; 8], vec![2u8; 100], vec![3u8; 8]]);
    assert_eq!(connector.drain_completions()[0].3, Some(vec![true, true, false]));
    connector.submit_hashed_exists(&keys);
    assert_eq!(connector.drain_completions()[0].3, Some(vec![true, true, false]));
    connector.submit_hashed_set(&keys[2..], &[vec![3u8; 100]]);
    assert_eq!(connector.drain_completions()[0].3, Some(vec![false]));
    connector.submit_hashed_exists(&keys);
    assert_eq!(connector.drain_completions()[0].3, Some(vec![true, true, false]));
}
