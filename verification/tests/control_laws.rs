//! Control plane and connectors on concrete values.

use rdmas::connector::director::{extract_chunk_hash, DirectorIntegration};
use rdmas::connector::native::{hash_lmcache_key, RDMANativeConnector};
use rdmas::control::proto::{HeartbeatRequest, RegionType};
use rdmas::control::replication::{BackupStore, ReplicationManager};
use rdmas::control::server::{min_active_ts, ControlServer};
use rdmas::control::tenant::{key_from_hashes, TenantNamespace, DIGEST_MASK};
use rdmas::engine::layout::HashedKey;
use std::collections::HashMap;
use xxhash_rust::xxh64::xxh64;

// -----------------------------------------------------------------------
// Control server
// -----------------------------------------------------------------------

#[test]
fn discovery_names_every_region() {
    let server = ControlServer::new();
    let m = server.discover(1024, 4096, 0xABC);
    assert_eq!(m.bucket_count, 1024);
    assert_eq!(m.region(RegionType::HashTable).unwrap().size, 65536);
    assert_eq!(m.region(RegionType::LargeObject).unwrap().size, 4096);
    assert_eq!(m.region(RegionType::FreeList).unwrap().vaddr, 0xABC);
}

#[test]
fn clients_come_and_go() {
    let mut server = ControlServer::new();
    let version = server.get_version();
    assert_eq!((version.service_version, version.min_compatible_version), (1, 1));
    let beat = server.heartbeat(HeartbeatRequest { client_id: 7, active_ts: 50 }, 1000);
    assert_eq!((beat.reconnect, beat.server_version), (false, 1));
    server.heartbeat(HeartbeatRequest { client_id: 8, active_ts: 30 }, 1000);
    assert_eq!(server.min_active_ts(), 30);
    server.deregister(8);
    assert_eq!(server.min_active_ts(), 50);
    assert_eq!(server.sync_free_list(&[1, 2, 3]), 3);
}

#[test]
fn least_active_timestamp() {
    let mut clients = HashMap::new();
    clients.insert(1, (9, 0));
    clients.insert(2, (4, 0));
    assert_eq!(min_active_ts(&clients), 4);
}

// -----------------------------------------------------------------------
// Tenants and replication
// -----------------------------------------------------------------------

#[test]
fn tenant_keys() {
    let tenant = TenantNamespace::new(5);
    let k = tenant.hashed_key(b"key");
    assert_eq!(k.hash, xxh64(b"key", 5));
    assert_eq!(&k.digest[..8], &k.hash.to_le_bytes());
    assert_eq!(&k.digest[8..], &xxh64(b"key", 5 ^ DIGEST_MASK).to_le_bytes());
    assert_eq!(tenant.id(), 5);
}

#[test]
fn digests_tell_hashes_apart() {
    let k = key_from_hashes(1, 2);
    assert_eq!(k.digest, [1, 0, 0, 0, 0, 0, 0, 0, 2, 0, 0, 0, 0, 0, 0, 0]);
    assert_ne!(key_from_hashes(1, 2).digest, key_from_hashes(2, 1).digest);
}

#[test]
fn a_replicated_write_reads_back_from_the_backup() {
    let mut manager = ReplicationManager::new(64, 4);
    let mut local = vec![0u8; 64];
    manager.write_with_replication(8, b"abc", &mut local);
    manager.write_with_replication(9, b"Z", &mut local);
    assert_eq!(manager.flush_replication(), 2);
    assert_eq!(manager.read_from_backup(8, 3).unwrap(), b"aZc");
    assert_eq!(manager.read_from_backup(0, 64).unwrap(), local);
}

#[test]
fn writes_outside_the_backup_are_dropped() {
    let mut store = BackupStore::new(4);
    store.enqueue_write(2, b"abc");
    store.flush();
    assert_eq!(store.read(0, 4).unwrap(), vec![0; 4]);
    assert!(store.read(1, 4).is_none());
    assert!(store.read(u64::MAX, 1).is_none());
}

// -----------------------------------------------------------------------
// Connectors
// -----------------------------------------------------------------------

#[test]
fn chunk_hashes_of_keys() {
    assert_eq!(extract_chunk_hash("llama-7b@0@0@a1b2c3d4"), Some(0xa1b2c3d4));
    assert_eq!(extract_chunk_hash("llama-7b@0@0@a1b2c3d4@salt"), Some(0xa1b2c3d4));
    assert_eq!(extract_chunk_hash("bad_key"), None);
    assert_eq!(extract_chunk_hash("m@0@0@xyz"), None);
    assert_eq!(extract_chunk_hash("m@0@0@ffffffffffffffff"), Some(u64::MAX));
    assert_eq!(extract_chunk_hash("m@0@0@10000000000000000"), None);
}

#[test]
fn reports_carry_the_chunk_hashes() {
    let director = DirectorIntegration::connect("node", "tenant", "model", 16);
    let keys = vec!["m@0@0@0a".to_string(), "bad".to_string(), "m@0@0@0b".to_string()];
    let store = director.report_store(&keys).unwrap();
    assert_eq!(store.block_hashes, vec![10, 11]);
    assert_eq!((store.node_id.as_str(), store.block_size), ("node", 16));
    let remove = director.report_remove(&keys).unwrap();
    assert_eq!(remove.block_hashes, vec![10, 11]);
    assert!(director.report_store(&["bad".to_string()]).is_none());
    let register = director.register("i", 2, "host:1", 3);
    assert_eq!((register.instance_id.as_str(), register.role, register.dp_rank), ("i", 2, 3));
}

#[test]
fn lmcache_keys_are_hashed_with_two_seeds() {
    let k = hash_lmcache_key("key");
    assert_eq!(k.hash, xxh64(b"key", 0));
    assert_eq!(&k.digest[8..], &xxh64(b"key", 1).to_le_bytes());
}

#[test]
fn future_ids_are_new_and_completions_drain_once() {
    let mut c = RDMANativeConnector::new(1, 1024);
    let keys = [HashedKey { hash: 5, digest: [5; 16] }];
    let a = c.submit_hashed_set(&keys, &[b"v".to_vec()]);
    let b = c.submit_hashed_exists(&keys);
    let d = c.submit_hashed_delete(&keys);
    let e = c.submit_hashed_exists(&keys);
    assert!(a < b && b < d && d < e);
    let done = c.drain_completions();
    let per_key: Vec<_> = done.iter().map(|c| (c.0, c.3.clone().unwrap())).collect();
    assert_eq!(
        per_key,
        vec![(a, vec![true]), (b, vec![true]), (d, vec![true]), (e, vec![false])]
    );
    assert!(c.drain_completions().is_empty());
    assert!(c.close());
    assert!(!c.close());
}

#[test]
fn tls_is_off_unless_asked_for() {
    assert!(!ControlServer::new().use_tls);
    assert!(ControlServer::new().with_tls().use_tls);
}
