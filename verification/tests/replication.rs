//! Backup store and replication.

use rdmas::control::replication::{BackupStore, ReplicationManager};

#[test]
fn test_backup_store_enqueue_and_flush() {
    let mut store = BackupStore::new(1024);
    store.enqueue_write(0, &[1u8, 2, 3, 4]);
    store.enqueue_write(4, &[5u8, 6, 7, 8]);
    assert_eq!(store.pending_count(), 2);

    let flushed = store.flush();
    assert_eq!(flushed, 2);
    assert_eq!(store.pending_count(), 0);
}

#[test]
fn test_backup_store_read() {
    let mut store = BackupStore::new(1024);
    store.enqueue_write(10, b"hello");
    store.flush();

    let data = store.read(10, 5).unwrap();
    assert_eq!(&data, b"hello");
}

#[test]
fn test_backup_store_read_out_of_bounds() {
    let store = BackupStore::new(64);
    assert!(store.read(100, 10).is_none());
}

#[test]
fn test_replication_manager_write_and_replicate() {
    let mut manager = ReplicationManager::new(1024, 10);
    let mut local = vec![0u8; 64];

    manager.write_with_replication(0, b"test_data", &mut local);

    assert_eq!(&local[0..9], b"test_data");
    assert!(manager.backup().pending_count() > 0);

    manager.flush_replication();
    assert_eq!(manager.backup().pending_count(), 0);

    let backup_data = manager.read_from_backup(0, 9).unwrap();
    assert_eq!(&backup_data, b"test_data");
}

#[test]
fn test_replication_lag_detection() {
    let mut manager = ReplicationManager::new(1024, 2);
    let mut local = vec![0u8; 64];

    manager.write_with_replication(0, b"a", &mut local);
    assert!(!manager.is_lagging());

    manager.write_with_replication(1, b"b", &mut local);
    manager.write_with_replication(2, b"c", &mut local);
    assert!(manager.is_lagging()); // 3 pending > 2 max_lag
}

#[test]
fn test_backup_store_empty() {
    let mut store = BackupStore::new(64);
    assert_eq!(store.pending_count(), 0);
    assert_eq!(store.flush(), 0);
}
