//! Remote reads, writes and allocations against a memory kept in a buffer.

use rdmas::client::read::{ClientReader, ReadResult};
use rdmas::client::remote_read::GetStep;
use rdmas::client::remote_write::InsertStep;
use rdmas::client::write::{ClientWriter, WriteResult};
use rdmas::engine::concurrency::accepts_checksum;
use rdmas::engine::layout::{BucketMode, HashBucket, HashedKey};
use rdmas::engine::remote_extent::{AllocStep, DistributedExtentAllocator};
use rdmas::error::RdmaError;
use rdmas::transport::{RemoteOp, RemoteReply};
use xxhash_rust::xxh64::xxh64;

const BUCKETS: u64 = 16;
const LIST: u64 = 4096;
const OBJECTS: u64 = LIST;

/// The memory of a server: a table at 0, the free list header at `LIST`.
struct Memory {
    bytes: Vec<u8>,
    ops: usize,
}

impl Memory {
    fn new(bump: u64) -> Self {
        let mut bytes = vec![0u8; 65536];
        bytes[LIST as usize..LIST as usize + 8].copy_from_slice(&bump.to_le_bytes());
        Memory { bytes, ops: 0 }
    }

    fn word(&self, at: u64) -> u64 {
        let at = at as usize;
        u64::from_le_bytes(self.bytes[at..at + 8].try_into().unwrap())
    }

    fn put_bucket(&mut self, i: u64, bucket: &HashBucket) {
        let at = i as usize * 64;
        self.bytes[at..at + 64].copy_from_slice(&bucket.to_bytes());
    }

    fn bucket(&self, i: u64) -> HashBucket {
        let at = i as usize * 64;
        HashBucket::from_bytes(&self.bytes[at..at + 64])
    }

    fn perform(&mut self, op: RemoteOp) -> RemoteReply {
        self.ops += 1;
        match op {
            RemoteOp::Read { addr, len, .. } => {
                let at = addr as usize;
                RemoteReply::Data(self.bytes[at..at + len as usize].to_vec())
            }
            RemoteOp::Write { addr, bytes, .. } => {
                let at = addr as usize;
                self.bytes[at..at + bytes.len()].copy_from_slice(&bytes);
                RemoteReply::Written
            }
            RemoteOp::Cas { addr, compare, swap, .. } => {
                let swapped = self.word(addr) == compare;
                if swapped {
                    let at = addr as usize;
                    self.bytes[at..at + 8].copy_from_slice(&swap.to_le_bytes());
                }
                RemoteReply::Swapped(swapped)
            }
        }
    }

    fn get(&mut self, key: &HashedKey) -> Result<Option<ReadResult>, RdmaError> {
        let (mut get, mut op) = ClientReader::get_remote(key, 0, 1, OBJECTS, 2, BUCKETS)?;
        loop {
            let reply = self.perform(op);
            assert!(get.accepts(&reply));
            match get.step(reply) {
                GetStep::Issue(next) => op = next,
                GetStep::Finished(r) => return r,
            }
        }
    }

    fn insert(
        &mut self,
        key: &HashedKey,
        value: &[u8],
        mode: BucketMode,
    ) -> Result<WriteResult, RdmaError> {
        let (mut insert, mut op) =
            ClientWriter::insert_remote(key, value, mode, 0, 1, LIST, 2, BUCKETS);
        loop {
            let reply = self.perform(op);
            assert!(insert.accepts(&reply));
            match insert.step(reply) {
                InsertStep::Issue(next) => op = next,
                InsertStep::Finished(r) => return r,
            }
        }
    }

    fn allocate(&mut self, data: &[u8]) -> Result<u64, RdmaError> {
        self.allocate_by(&mut DistributedExtentAllocator::new(LIST, 2, 3), data)
    }

    fn allocate_by(
        &mut self,
        allocator: &mut DistributedExtentAllocator,
        data: &[u8],
    ) -> Result<u64, RdmaError> {
        let (mut alloc, mut op) = allocator.allocate_remote(data);
        loop {
            let reply = self.perform(op);
            assert!(alloc.accepts(&reply));
            match alloc.step(reply) {
                AllocStep::Issue(next) => op = next,
                AllocStep::Finished(r) => return r,
            }
        }
    }
}

/// h1 is `hash % 16`, h2 is `((hash >> 32) % 16) | 1`.
fn key(hash: u64, seed: u8) -> HashedKey {
    HashedKey { hash, digest: [seed; 16] }
}

#[test]
fn remote_insert_then_get_inline() {
    let mut mem = Memory::new(64);
    let k = key(0x5_0000_0002, 7);
    assert_eq!(
        mem.insert(&k, b"hello", BucketMode::Inline),
        Ok(WriteResult::Inserted { bucket_idx: 2 })
    );
    let found = mem.get(&k).unwrap().unwrap();
    assert_eq!(found.mode, BucketMode::Inline);
    assert_eq!(&found.value[..5], b"hello");
    assert_eq!(found.value.len(), 32);
}

#[test]
fn remote_insert_then_get_extent() {
    let mut mem = Memory::new(64);
    let k = key(0x5_0000_0002, 7);
    let value: Vec<u8> = (0..200u8).collect();
    assert_eq!(
        mem.insert(&k, &value, BucketMode::Extent),
        Ok(WriteResult::Inserted { bucket_idx: 2 })
    );
    let found = mem.get(&k).unwrap().unwrap();
    assert_eq!(found.mode, BucketMode::Extent);
    assert_eq!(found.value, value);
    // The bump offset has moved past the extent: 32 + 200 is 232, a multiple of 8.
    assert_eq!(mem.word(LIST), 64 + 232);
}

#[test]
fn remote_insert_takes_the_second_bucket() {
    let mut mem = Memory::new(64);
    let a = key(0x5_0000_0002, 7);
    let b = key(0x6_0000_0002, 8);
    mem.insert(&a, b"a", BucketMode::Inline).unwrap();
    // h2 of b is (6 % 16) | 1.
    assert_eq!(
        mem.insert(&b, b"b", BucketMode::Inline),
        Ok(WriteResult::Inserted { bucket_idx: 7 })
    );
    assert_eq!(mem.get(&a).unwrap().unwrap().value[0], b'a');
    assert_eq!(mem.get(&b).unwrap().unwrap().value[0], b'b');
}

#[test]
fn remote_insert_reports_a_full_pair() {
    let mut mem = Memory::new(64);
    mem.insert(&key(0x6_0000_0002, 1), b"a", BucketMode::Inline).unwrap();
    mem.insert(&key(0x6_0000_0012, 2), b"b", BucketMode::Inline).unwrap();
    let before = mem.bytes.clone();
    assert_eq!(
        mem.insert(&key(0x6_0000_0022, 3), b"c", BucketMode::Inline),
        Ok(WriteResult::TableFull)
    );
    assert_eq!(mem.bytes, before);
}

#[test]
fn remote_get_probes_both_buckets_of_a_missing_key() {
    let mut mem = Memory::new(64);
    assert_eq!(mem.get(&key(0x5_0000_0002, 7)), Ok(None));
    assert_eq!(mem.ops, 2);
}

#[test]
fn remote_get_skips_tombstones() {
    let mut mem = Memory::new(64);
    let k = key(0x5_0000_0002, 7);
    mem.insert(&k, b"gone", BucketMode::Inline).unwrap();
    let mut bucket = mem.bucket(2);
    bucket.mark_tombstone();
    mem.put_bucket(2, &bucket);
    assert_eq!(mem.get(&k), Ok(None));
}

#[test]
fn remote_get_rejects_bad_arguments() {
    assert!(matches!(
        ClientReader::get_remote(&key(0, 1), 0, 1, OBJECTS, 2, BUCKETS),
        Err(RdmaError::InvalidKey)
    ));
    assert!(matches!(
        ClientReader::get_remote(&key(1, 1), 0, 1, OBJECTS, 2, 12),
        Err(RdmaError::Internal(_))
    ));
}

#[test]
fn remote_failures_end_the_operation() {
    let (mut get, _) = ClientReader::get_remote(&key(1, 1), 0, 1, OBJECTS, 2, BUCKETS).unwrap();
    match get.step(RemoteReply::Failed(RdmaError::Timeout)) {
        GetStep::Finished(r) => assert_eq!(r, Err(RdmaError::Timeout)),
        other => panic!("unexpected step {other:?}"),
    }
    let (mut insert, _) =
        ClientWriter::insert_remote(&key(1, 1), b"x", BucketMode::Inline, 0, 1, LIST, 2, BUCKETS);
    match insert.step(RemoteReply::Failed(RdmaError::NotConnected)) {
        InsertStep::Finished(r) => assert_eq!(r, Err(RdmaError::NotConnected)),
        other => panic!("unexpected step {other:?}"),
    }
}

#[test]
fn remote_replies_of_another_kind_are_not_accepted() {
    let (get, _) = ClientReader::get_remote(&key(1, 1), 0, 1, OBJECTS, 2, BUCKETS).unwrap();
    assert!(!get.accepts(&RemoteReply::Written));
    assert!(!get.accepts(&RemoteReply::Data(vec![0; 63])));
    assert!(get.accepts(&RemoteReply::Data(vec![0; 64])));
    let (alloc, _) = DistributedExtentAllocator::new(LIST, 2, 3).allocate_remote(b"x");
    assert!(!alloc.accepts(&RemoteReply::Swapped(true)));
    // A bump offset that leaves no room in the address space.
    assert!(!alloc.accepts(&RemoteReply::Data(u64::MAX.to_le_bytes().to_vec())));
}

#[test]
fn remote_allocation_writes_header_payload_and_checksum() {
    let mut mem = Memory::new(64);
    let data = b"remote payload";
    assert_eq!(mem.allocate(data), Ok(64));
    let at = (LIST + 64) as usize;
    assert_eq!(&mem.bytes[at + 32..at + 32 + data.len()], data);
    assert_eq!(mem.word(LIST + 64 + 24), xxh64(data, 0));
    assert_eq!(mem.word(LIST), 64 + 48);
    // The next extent begins where this one ends.
    assert_eq!(mem.allocate(b"more"), Ok(112));
    assert_eq!(&mem.bytes[at + 32..at + 32 + data.len()], data);
}

#[test]
fn remote_allocation_loses_a_race() {
    let (mut alloc, op) = DistributedExtentAllocator::new(LIST, 2, 3).allocate_remote(b"x");
    assert!(matches!(op, RemoteOp::Read { addr: LIST, rkey: 2, len: 8 }));
    match alloc.step(RemoteReply::Data(64u64.to_le_bytes().to_vec())) {
        AllocStep::Issue(RemoteOp::Cas { addr, compare, swap, .. }) => {
            assert_eq!((addr, compare, swap), (LIST, 64, 104))
        }
        other => panic!("unexpected step {other:?}"),
    }
    match alloc.step(RemoteReply::Swapped(false)) {
        AllocStep::Finished(r) => assert_eq!(r, Err(RdmaError::CasFailed)),
        other => panic!("unexpected step {other:?}"),
    }
}

#[test]
fn unfinished_remote_extent_is_rejected() {
    let data = b"half written";
    let computed = xxh64(data, 0);
    // Before its last write an extent has checksum 0.
    assert!(!accepts_checksum(0, computed));
    assert!(accepts_checksum(computed, computed));
}

#[test]
fn cached_freed_offsets_are_tried_before_the_bump_offset() {
    let mut mem = Memory::new(64);
    assert_eq!(mem.allocate(b"0123456789"), Ok(64));
    let bump = mem.word(LIST);
    assert_eq!(bump, 64 + 48);
    mem.ops = 0;
    let mut allocator = DistributedExtentAllocator::new(LIST, 2, 3);
    // No extent fits behind the last of these, so the first is taken.
    allocator.local_free_offsets = vec![64, u64::MAX];
    assert_eq!(mem.allocate_by(&mut allocator, b"9876"), Ok(64));
    assert_eq!(mem.ops, 3);
    assert_eq!(mem.word(LIST), bump);
    assert!(allocator.local_free_offsets.is_empty());
    let at = (LIST + 64) as usize;
    assert_eq!(&mem.bytes[at + 32..at + 36], b"9876");
    assert_eq!(mem.word(LIST + 64 + 24), xxh64(b"9876", 0));
    // With the cache empty, the bump offset is next.
    assert_eq!(mem.allocate_by(&mut allocator, b"more"), Ok(bump));
    assert_eq!(mem.word(LIST), bump + 40);
}
