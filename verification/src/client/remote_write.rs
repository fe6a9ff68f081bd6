//! The write path over remote memory, as a state machine.
//!
//! Reads bucket metadata remotely, builds a new bucket entry, and uses CAS to
//! claim the slot. Falls through to the alternate bucket (h2) if the primary
//! (h1) is occupied. Only direct placement is attempted; there is no kick chain.

use vstd::prelude::*;

use crate::client::remote_read;
use crate::client::write::{ClientWriter, WriteResult};
use crate::engine::cuckoo;
use crate::engine::layout;
use crate::engine::layout::{BucketMode, HashBucket, HashedKey, Slot};
use crate::engine::remote_extent;
use crate::engine::remote_extent::{AllocStage, AllocStep, AllocStepView, AllocView, RemoteAllocation};
use crate::error::{ErrorView, RdmaError};
use crate::transport;
use crate::transport::{OpView, RemoteOp, RemoteReply, ReplyView};

verus! {

// ---------------------------------------------------------------------------
// Model
// ---------------------------------------------------------------------------
/// Where an insert stands. `seen` is the lock word of the vacant bucket that was
/// read, `entry` what is to be written there.
pub enum InsertStageView {
    /// Reading the bucket.
    ReadBucket,
    /// Allocating the extent for the value.
    Allocating { seen: u64, alloc: AllocView },
    /// Claiming the bucket.
    CasBucket { seen: u64, entry: Slot },
    /// Writing the bucket.
    WriteBucket { entry: Slot },
}

/// An insert as a value. `second` tells h2 from h1.
pub struct InsertView {
    pub hash: u64,
    pub digest: Seq<u8>,
    pub value: Seq<u8>,
    pub extent: bool,
    pub table_vaddr: u64,
    pub table_rkey: u32,
    pub list_vaddr: u64,
    pub list_rkey: u32,
    pub bucket_count: u64,
    pub second: bool,
    pub stage: InsertStageView,
}

/// What an insert does next.
pub enum InsertStepView {
    Issue(OpView),
    Finished(Result<WriteResult, ErrorView>),
}

/// The slot that is being tried.
pub open spec fn tried_slot(v: InsertView) -> int {
    if v.second {
        cuckoo::h2_of(v.hash, v.bucket_count as int)
    } else {
        cuckoo::h1_of(v.hash, v.bucket_count as int)
    }
}

/// The address of the bucket that is being tried.
pub open spec fn tried_addr(v: InsertView) -> int {
    remote_read::bucket_addr(v.table_vaddr, tried_slot(v))
}

/// The operation that is under way in a stage.
pub open spec fn insert_op(v: InsertView) -> OpView {
    let addr = tried_addr(v) as u64;
    match v.stage {
        InsertStageView::ReadBucket => OpView::Read { addr, rkey: v.table_rkey, len: 64 },
        InsertStageView::Allocating { alloc, .. } => remote_extent::alloc_op(alloc),
        InsertStageView::CasBucket { seen, entry } => OpView::Cas {
            addr,
            rkey: v.table_rkey,
            compare: seen,
            swap: entry.lock,
        },
        InsertStageView::WriteBucket { entry } => OpView::Write {
            addr,
            rkey: v.table_rkey,
            bytes: layout::bucket_bytes(entry),
        },
    }
}

/// The entry of an inline value.
pub open spec fn inline_entry(v: InsertView) -> Slot {
    layout::fresh_slot(v.hash, v.digest, cuckoo::packed(v.value, false), false)
}

/// The entry of a value in the extent at `offset`.
pub open spec fn extent_entry(v: InsertView, offset: u64) -> Slot {
    layout::fresh_slot(v.hash, v.digest, cuckoo::extent_body(offset, v.value.len() as u64), true)
}

/// The allocation of the value's extent, at its start.
pub open spec fn first_alloc(v: InsertView) -> AllocView {
    AllocView {
        data: v.value,
        vaddr: v.list_vaddr,
        rkey: v.list_rkey,
        stage: AllocStage::ReadBump,
    }
}

/// The insert in another stage, whose operation it issues.
pub open spec fn go_on(v: InsertView, stage: InsertStageView) -> (InsertView, InsertStepView) {
    let next = InsertView { stage, ..v };
    (next, InsertStepView::Issue(insert_op(next)))
}

/// The insert when a bucket cannot be had: from h1 it goes on to h2, and at h2 it
/// ends.
pub open spec fn elsewhere(v: InsertView) -> (InsertView, InsertStepView) {
    if v.second {
        (v, InsertStepView::Finished(Ok(WriteResult::TableFull)))
    } else {
        go_on(InsertView { second: true, ..v }, InsertStageView::ReadBucket)
    }
}

/// One step. A failure ends the insert with its error, and so does a lost race
/// for the bump offset; a bucket that is locked, occupied or lost to another
/// client leads on to the next candidate.
pub open spec fn insert_step(v: InsertView, reply: ReplyView) -> (InsertView, InsertStepView) {
    if let ReplyView::Failed(e) = reply {
        (v, InsertStepView::Finished(Err(e)))
    } else {
        match v.stage {
            InsertStageView::ReadBucket => {
                let s = layout::slot_of(reply->Data_0);
                if !cuckoo::claimable(s) {
                    elsewhere(v)
                } else if v.extent {
                    go_on(
                        v,
                        InsertStageView::Allocating { seen: s.lock, alloc: first_alloc(v) },
                    )
                } else {
                    go_on(
                        v,
                        InsertStageView::CasBucket { seen: s.lock, entry: inline_entry(v) },
                    )
                }
            },
            InsertStageView::Allocating { seen, alloc } => match remote_extent::alloc_step(
                alloc,
                reply,
            ) {
                (next, AllocStepView::Issue(_)) => go_on(
                    v,
                    InsertStageView::Allocating { seen, alloc: next },
                ),
                (next, AllocStepView::Finished(Err(e))) => (
                    InsertView { stage: InsertStageView::Allocating { seen, alloc: next }, ..v },
                    InsertStepView::Finished(Err(e)),
                ),
                (_, AllocStepView::Finished(Ok(offset))) => go_on(
                    v,
                    InsertStageView::CasBucket { seen, entry: extent_entry(v, offset) },
                ),
            },
            InsertStageView::CasBucket { entry, .. } => if reply == ReplyView::Swapped(true) {
                go_on(v, InsertStageView::WriteBucket { entry })
            } else {
                elsewhere(v)
            },
            InsertStageView::WriteBucket { .. } => (
                v,
                InsertStepView::Finished(
                    Ok(WriteResult::Inserted { bucket_idx: tried_slot(v) as usize }),
                ),
            ),
        }
    }
}

/// The addresses of both candidate buckets fit in a `u64`, and so do those of an
/// allocation under way.
pub open spec fn insert_wf(v: InsertView) -> bool {
    let n = v.bucket_count as int;
    &&& n > 0
    &&& remote_read::bucket_addr(v.table_vaddr, cuckoo::h1_of(v.hash, n)) <= u64::MAX
    &&& remote_read::bucket_addr(v.table_vaddr, cuckoo::h2_of(v.hash, n)) <= u64::MAX
    &&& v.extent ==> v.value.len() + 39 <= u64::MAX
    &&& v.stage matches InsertStageView::Allocating { alloc, .. } ==> v.extent
        && remote_extent::alloc_wf(alloc)
}

/// The reply can be worked on: it answers the operation under way, and a bump
/// offset that was read leaves room in the address space.
pub open spec fn insert_accepts(v: InsertView, reply: ReplyView) -> bool {
    match v.stage {
        InsertStageView::Allocating { alloc, .. } => remote_extent::alloc_accepts(alloc, reply),
        _ => transport::answers(reply, insert_op(v)),
    }
}

// ---------------------------------------------------------------------------
// RemoteInsert
// ---------------------------------------------------------------------------
/// Where a remote insert stands.
#[derive(Debug)]
pub enum InsertStage {
    /// Reading the bucket.
    ReadBucket,
    /// Allocating the extent for the value.
    Allocating { seen: u64, alloc: RemoteAllocation },
    /// Claiming the bucket: CAS of its lock word.
    CasBucket { seen: u64, entry: HashBucket },
    /// Writing the rest of the bucket fields.
    WriteBucket { entry: HashBucket },
}

impl View for InsertStage {
    type V = InsertStageView;

    open spec fn view(&self) -> InsertStageView {
        match *self {
            InsertStage::ReadBucket => InsertStageView::ReadBucket,
            InsertStage::Allocating { seen, alloc } => InsertStageView::Allocating {
                seen,
                alloc: alloc@,
            },
            InsertStage::CasBucket { seen, entry } => InsertStageView::CasBucket {
                seen,
                entry: entry@,
            },
            InsertStage::WriteBucket { entry } => InsertStageView::WriteBucket { entry: entry@ },
        }
    }
}

/// One insert over remote memory.
#[derive(Debug)]
pub struct RemoteInsert {
    pub key: HashedKey,
    pub value: Vec<u8>,
    pub mode: BucketMode,
    pub hash_table_vaddr: u64,
    pub hash_table_rkey: u32,
    pub free_list_vaddr: u64,
    pub free_list_rkey: u32,
    pub bucket_count: u64,
    /// Whether h1 has been given up for h2.
    pub second: bool,
    pub stage: InsertStage,
}

/// What a remote insert does next.
#[derive(Debug)]
pub enum InsertStep {
    /// Perform the operation and hand its reply to the next step.
    Issue(RemoteOp),
    /// The insert is over.
    Finished(Result<WriteResult, RdmaError>),
}

impl View for InsertStep {
    type V = InsertStepView;

    open spec fn view(&self) -> InsertStepView {
        match *self {
            InsertStep::Issue(op) => InsertStepView::Issue(op@),
            InsertStep::Finished(r) => InsertStepView::Finished(
                match r {
                    Ok(w) => Ok(w),
                    Err(e) => Err(e@),
                },
            ),
        }
    }
}

impl View for RemoteInsert {
    type V = InsertView;

    open spec fn view(&self) -> InsertView {
        InsertView {
            hash: self.key.hash,
            digest: self.key.digest@,
            value: self.value@,
            extent: self.mode == BucketMode::Extent,
            table_vaddr: self.hash_table_vaddr,
            table_rkey: self.hash_table_rkey,
            list_vaddr: self.free_list_vaddr,
            list_rkey: self.free_list_rkey,
            bucket_count: self.bucket_count,
            second: self.second,
            stage: self.stage@,
        }
    }
}

impl ClientWriter {
    /// Begins a CAS-based insert over remote memory; the operation to perform
    /// first.
    ///
    /// # Arguments
    ///
    /// * `key`: the hashed key (must have a non-zero hash).
    /// * `value`: data to store. Must fit in 32 B for [`BucketMode::Inline`].
    /// * `mode`: [`BucketMode::Inline`] or [`BucketMode::Extent`].
    /// * `hash_table_vaddr` / `hash_table_rkey`: server's hash table region.
    /// * `free_list_vaddr` / `free_list_rkey`: server's FreeList region.
    /// * `bucket_count`: total number of buckets (must be a power of 2).
    pub fn insert_remote(
        key: &HashedKey,
        value: &[u8],
        mode: BucketMode,
        hash_table_vaddr: u64,
        hash_table_rkey: u32,
        free_list_vaddr: u64,
        free_list_rkey: u32,
        bucket_count: u64,
    ) -> (r: (RemoteInsert, RemoteOp))
        requires
            bucket_count > 0,
            remote_read::bucket_addr(
                hash_table_vaddr,
                cuckoo::h1_of(key.hash, bucket_count as int),
            ) <= u64::MAX,
            remote_read::bucket_addr(
                hash_table_vaddr,
                cuckoo::h2_of(key.hash, bucket_count as int),
            ) <= u64::MAX,
            mode == BucketMode::Extent ==> value@.len() + 39 <= u64::MAX,
        ensures
            r.0@ == (InsertView {
                hash: key.hash,
                digest: key.digest@,
                value: value@,
                extent: mode == BucketMode::Extent,
                table_vaddr: hash_table_vaddr,
                table_rkey: hash_table_rkey,
                list_vaddr: free_list_vaddr,
                list_rkey: free_list_rkey,
                bucket_count,
                second: false,
                stage: InsertStageView::ReadBucket,
            }),
            r.1@ == insert_op(r.0@),
            insert_wf(r.0@),
    {
        let v = RemoteInsert {
            key: key.clone(),
            value: vstd::slice::slice_to_vec(value),
            mode,
            hash_table_vaddr,
            hash_table_rkey,
            free_list_vaddr,
            free_list_rkey,
            bucket_count,
            second: false,
            stage: InsertStage::ReadBucket,
        };
        let op = v.read_op();
        (v, op)
    }
}

impl RemoteInsert {
    /// The slot that is being tried.
    fn slot(&self) -> (i: u64)
        requires
            insert_wf(self@),
        ensures
            i == tried_slot(self@),
    {
        if self.second {
            cuckoo::secondary_slot(self.key.hash, self.bucket_count)
        } else {
            cuckoo::primary_slot(self.key.hash, self.bucket_count)
        }
    }

    /// The address of the bucket that is being tried.
    fn addr(&self) -> (a: u64)
        requires
            insert_wf(self@),
        ensures
            a == tried_addr(self@),
    {
        let i: u64 = self.slot();
        self.hash_table_vaddr + i * 64
    }

    /// The read of the bucket that is being tried.
    fn read_op(&self) -> (op: RemoteOp)
        requires
            insert_wf(self@),
        ensures
            op@ == (OpView::Read {
                addr: tried_addr(self@) as u64,
                rkey: self.hash_table_rkey,
                len: 64,
            }),
    {
        RemoteOp::Read { addr: self.addr(), rkey: self.hash_table_rkey, len: 64 }
    }

    /// An entry for the key, over an empty body.
    fn blank_entry(&self) -> (b: HashBucket)
        ensures
            b@ == layout::fresh_slot(
                self.key.hash,
                self.key.digest@,
                Seq::new(32, |i: int| 0u8),
                self.mode == BucketMode::Extent,
            ),
    {
        let mut b = HashBucket::zeroed();
        assert(b.body@ =~= Seq::new(32, |i: int| 0u8));
        b.key_hash = self.key.hash;
        b.key_or_digest = self.key.digest;
        b.lock_version = layout::make_lock_word(0, 0, self.mode, false, false);
        b
    }

    /// Whether `reply` can be handed to [`step`](Self::step): it answers the
    /// operation under way, and a bump offset that was read leaves room for the
    /// extent in the address space.
    pub fn accepts(&self, reply: &RemoteReply) -> (b: bool)
        requires
            insert_wf(self@),
        ensures
            b == insert_accepts(self@, reply@),
    {
        match &self.stage {
            InsertStage::Allocating { alloc, .. } => alloc.accepts(reply),
            InsertStage::ReadBucket => match reply {
                RemoteReply::Failed(_) => true,
                RemoteReply::Data(bytes) => bytes.len() == 64,
                _ => false,
            },
            InsertStage::CasBucket { .. } => match reply {
                RemoteReply::Failed(_) => true,
                RemoteReply::Swapped(_) => true,
                _ => false,
            },
            InsertStage::WriteBucket { .. } => match reply {
                RemoteReply::Failed(_) => true,
                RemoteReply::Written => true,
                _ => false,
            },
        }
    }

    /// Gives the bucket up: goes on to h2, or ends with `TableFull`.
    fn give_up(&mut self) -> (r: InsertStep)
        requires
            insert_wf(old(self)@),
        ensures
            (final(self)@, r@) == elsewhere(old(self)@),
            insert_wf(final(self)@),
    {
        if self.second {
            return InsertStep::Finished(Ok(WriteResult::TableFull));
        }
        self.second = true;
        self.stage = InsertStage::ReadBucket;
        InsertStep::Issue(self.read_op())
    }

    /// Goes on to claim the bucket for `entry`.
    fn claim(&mut self, seen: u64, entry: HashBucket) -> (r: InsertStep)
        requires
            insert_wf(old(self)@),
        ensures
            (final(self)@, r@) == go_on(
                old(self)@,
                InsertStageView::CasBucket { seen, entry: entry@ },
            ),
            insert_wf(final(self)@),
    {
        self.stage = InsertStage::CasBucket { seen, entry };
        InsertStep::Issue(
            RemoteOp::Cas {
                addr: self.addr(),
                rkey: self.hash_table_rkey,
                compare: seen,
                swap: entry.lock_version,
            },
        )
    }

    /// Goes on with the bucket that was read.
    fn take_bucket(&mut self, bucket: HashBucket) -> (r: InsertStep)
        requires
            insert_wf(old(self)@),
            old(self)@.stage is ReadBucket,
        ensures
            (final(self)@, r@) == (if !cuckoo::claimable(bucket@) {
                elsewhere(old(self)@)
            } else if old(self)@.extent {
                go_on(
                    old(self)@,
                    InsertStageView::Allocating {
                        seen: bucket.lock_version,
                        alloc: first_alloc(old(self)@),
                    },
                )
            } else {
                go_on(
                    old(self)@,
                    InsertStageView::CasBucket {
                        seen: bucket.lock_version,
                        entry: inline_entry(old(self)@),
                    },
                )
            }),
            insert_wf(final(self)@),
    {
        // A locked bucket: another client is writing here.
        if !ClientWriter::is_claimable(&bucket) {
            return self.give_up();
        }
        match self.mode {
            BucketMode::Inline => {
                let mut entry: HashBucket = self.blank_entry();
                entry.body = ClientWriter::inline_body(&self.value);
                self.claim(bucket.lock_version, entry)
            },
            BucketMode::Extent => {
                let (alloc, op) = RemoteAllocation::start(
                    self.free_list_vaddr,
                    self.free_list_rkey,
                    &self.value,
                );
                self.stage = InsertStage::Allocating { seen: bucket.lock_version, alloc };
                InsertStep::Issue(op)
            },
        }
    }

    /// Goes on with the reply to the operation under way.
    pub fn step(&mut self, reply: RemoteReply) -> (r: InsertStep)
        requires
            insert_wf(old(self)@),
            insert_accepts(old(self)@, reply@),
        ensures
            (final(self)@, r@) == insert_step(old(self)@, reply@),
            insert_wf(final(self)@),
    {
        if let RemoteReply::Failed(e) = reply {
            return InsertStep::Finished(Err(e));
        }
        let allocated: (u64, u64) = match &mut self.stage {
            InsertStage::Allocating { seen, alloc } => {
                let lock: u64 = *seen;
                match alloc.step(reply) {
                    AllocStep::Issue(op) => return InsertStep::Issue(op),
                    AllocStep::Finished(Err(e)) => return InsertStep::Finished(Err(e)),
                    AllocStep::Finished(Ok(offset)) => (lock, offset),
                }
            },
            InsertStage::ReadBucket => {
                let bucket: HashBucket = match reply {
                    RemoteReply::Data(bytes) => HashBucket::from_bytes(&bytes),
                    _ => HashBucket::zeroed(),
                };
                return self.take_bucket(bucket);
            },
            InsertStage::CasBucket { entry, .. } => {
                let entry: HashBucket = *entry;
                if let RemoteReply::Swapped(true) = reply {
                    self.stage = InsertStage::WriteBucket { entry };
                    return InsertStep::Issue(
                        RemoteOp::Write {
                            addr: self.addr(),
                            rkey: self.hash_table_rkey,
                            bytes: entry.to_bytes(),
                        },
                    );
                }
                return self.give_up();
            },
            InsertStage::WriteBucket { .. } => {
                let idx: u64 = self.slot();
                return InsertStep::Finished(Ok(WriteResult::Inserted { bucket_idx: idx as usize }));
            },
        };
        let mut entry: HashBucket = self.blank_entry();
        entry.set_extent_ref(allocated.1, self.value.len() as u64);
        assert(Seq::new(32, |i: int| 0u8).subrange(16, 32) =~= Seq::new(16, |i: int| 0u8));
        self.claim(allocated.0, entry)
    }
}

} // verus!
