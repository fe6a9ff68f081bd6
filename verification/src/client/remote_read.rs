//! The read path over remote memory, as a state machine.

use vstd::prelude::*;

use crate::client::read;
use crate::client::read::{ClientReader, Found, ReadResult};
use crate::engine::cuckoo;
use crate::engine::extent;
use crate::engine::layout;
use crate::engine::layout::{BucketMode, HashBucket, HashedKey, Slot};
use crate::error::{ErrorView, RdmaError};
use crate::transport;
use crate::transport::{OpView, RemoteOp, RemoteReply, ReplyView};

verus! {

// ---------------------------------------------------------------------------
// Model
// ---------------------------------------------------------------------------
/// Where a lookup stands: which bytes are being read.
#[derive(Debug, Clone, Copy, PartialEq, Eq, Structural)]
pub enum GetStage {
    /// The bucket at h1.
    First,
    /// The bucket at h2.
    Second,
    /// The payload of the extent that a bucket referred to.
    Extent { addr: u64, len: u64 },
}

/// A lookup as a value.
#[verifier::ext_equal]
pub struct GetView {
    pub hash: u64,
    pub digest: Seq<u8>,
    pub table_vaddr: u64,
    pub table_rkey: u32,
    pub objects_vaddr: u64,
    pub objects_rkey: u32,
    pub bucket_count: u64,
    pub stage: GetStage,
}

/// What a lookup does next.
pub enum GetStepView {
    Issue(OpView),
    Finished(Result<Option<Found>, ErrorView>),
}

/// The address of a bucket.
pub open spec fn bucket_addr(vaddr: u64, idx: int) -> int {
    vaddr + 64 * idx
}

/// The operation that is under way in a stage.
pub open spec fn get_op(g: GetView) -> OpView {
    let n = g.bucket_count as int;
    match g.stage {
        GetStage::First => OpView::Read {
            addr: bucket_addr(g.table_vaddr, cuckoo::h1_of(g.hash, n)) as u64,
            rkey: g.table_rkey,
            len: 64,
        },
        GetStage::Second => OpView::Read {
            addr: bucket_addr(g.table_vaddr, cuckoo::h2_of(g.hash, n)) as u64,
            rkey: g.table_rkey,
            len: 64,
        },
        GetStage::Extent { addr, len } => OpView::Read { addr, rkey: g.objects_rkey, len },
    }
}

/// The address of the payload of the extent at an offset: it follows the extent
/// header.
pub open spec fn payload_addr(objects_vaddr: u64, off: int) -> int {
    objects_vaddr + off + extent::HEADER_SIZE
}

/// The stage that reads the payload of the extent of a slot.
pub open spec fn extent_stage(g: GetView, s: Slot) -> GetStage {
    let (off, len) = layout::body_extent_ref(s.body);
    GetStage::Extent { addr: payload_addr(g.objects_vaddr, off as int) as u64, len: len as u64 }
}

/// The lookup after it has read a bucket: an Inline hit ends it, an Extent hit
/// leads on to the extent, a miss leads from h1 to h2 and ends it there.
pub open spec fn after_bucket(g: GetView, s: Slot) -> (GetView, GetStepView) {
    if read::hit(s, g.hash, g.digest) {
        if layout::word_extent(s.lock) {
            let next = GetView { stage: extent_stage(g, s), ..g };
            (next, GetStepView::Issue(get_op(next)))
        } else {
            (g, GetStepView::Finished(Ok(Some((s.body, false)))))
        }
    } else if g.stage is First {
        let next = GetView { stage: GetStage::Second, ..g };
        (next, GetStepView::Issue(get_op(next)))
    } else {
        (g, GetStepView::Finished(Ok(None)))
    }
}

/// One step: a failure ends the lookup with its error.
pub open spec fn get_step(g: GetView, reply: ReplyView) -> (GetView, GetStepView) {
    match reply {
        ReplyView::Failed(e) => (g, GetStepView::Finished(Err(e))),
        ReplyView::Data(bytes) => if g.stage is Extent {
            (g, GetStepView::Finished(Ok(Some((bytes, true)))))
        } else {
            after_bucket(g, layout::slot_of(bytes))
        },
        _ => (g, GetStepView::Finished(Ok(None))),
    }
}

/// The addresses of both candidate buckets fit in a `u64`.
pub open spec fn get_wf(g: GetView) -> bool {
    let n = g.bucket_count as int;
    &&& n > 0
    &&& bucket_addr(g.table_vaddr, cuckoo::h1_of(g.hash, n)) <= u64::MAX
    &&& bucket_addr(g.table_vaddr, cuckoo::h2_of(g.hash, n)) <= u64::MAX
}

/// The reply can be worked on: it answers the operation under way, and the
/// payload of an extent that a bucket refers to has an address.
pub open spec fn get_accepts(g: GetView, reply: ReplyView) -> bool {
    &&& transport::answers(reply, get_op(g))
    &&& g.stage !is Extent ==> (reply matches ReplyView::Data(bytes) ==> {
        let s = layout::slot_of(bytes);
        read::hit(s, g.hash, g.digest) && layout::word_extent(s.lock) ==> payload_addr(
            g.objects_vaddr,
            layout::body_extent_ref(s.body).0 as int,
        ) <= u64::MAX
    })
}

// ---------------------------------------------------------------------------
// RemoteGet
// ---------------------------------------------------------------------------
/// One lookup over remote memory.
///
/// The bucket size is fixed at 64 bytes (matching [`HashBucket`]).
#[derive(Debug)]
pub struct RemoteGet {
    pub key: HashedKey,
    pub hash_table_vaddr: u64,
    pub hash_table_rkey: u32,
    pub large_obj_vaddr: u64,
    pub large_obj_rkey: u32,
    pub bucket_count: u64,
    pub stage: GetStage,
}

/// What a remote lookup does next.
#[derive(Debug)]
pub enum GetStep {
    /// Perform the operation and hand its reply to the next step.
    Issue(RemoteOp),
    /// The lookup is over.
    Finished(Result<Option<ReadResult>, RdmaError>),
}

impl View for GetStep {
    type V = GetStepView;

    open spec fn view(&self) -> GetStepView {
        match *self {
            GetStep::Issue(op) => GetStepView::Issue(op@),
            GetStep::Finished(r) => GetStepView::Finished(read::outcome(r)),
        }
    }
}

impl View for RemoteGet {
    type V = GetView;

    open spec fn view(&self) -> GetView {
        GetView {
            hash: self.key.hash,
            digest: self.key.digest@,
            table_vaddr: self.hash_table_vaddr,
            table_rkey: self.hash_table_rkey,
            objects_vaddr: self.large_obj_vaddr,
            objects_rkey: self.large_obj_rkey,
            bucket_count: self.bucket_count,
            stage: self.stage,
        }
    }
}

impl ClientReader {
    /// Begins a lookup over remote memory; the operation to perform first.
    ///
    /// # Arguments
    ///
    /// * `key`: the hashed key to look up.
    /// * `hash_table_vaddr` / `hash_table_rkey`: server's hash table region.
    /// * `large_obj_vaddr` / `large_obj_rkey`: server's large object region, in
    ///   which the extents stand at their offsets, each behind its header.
    /// * `bucket_count`: total number of buckets (must be a power of 2).
    pub fn get_remote(
        key: &HashedKey,
        hash_table_vaddr: u64,
        hash_table_rkey: u32,
        large_obj_vaddr: u64,
        large_obj_rkey: u32,
        bucket_count: u64,
    ) -> (r: Result<(RemoteGet, RemoteOp), RdmaError>)
        requires
            read::early_error(key.hash, bucket_count) is None ==> bucket_addr(
                hash_table_vaddr,
                cuckoo::h1_of(key.hash, bucket_count as int),
            ) <= u64::MAX && bucket_addr(
                hash_table_vaddr,
                cuckoo::h2_of(key.hash, bucket_count as int),
            ) <= u64::MAX,
        ensures
            match r {
                Ok((g, op)) => {
                    &&& read::early_error(key.hash, bucket_count) is None
                    &&& g@ == (GetView {
                        hash: key.hash,
                        digest: key.digest@,
                        table_vaddr: hash_table_vaddr,
                        table_rkey: hash_table_rkey,
                        objects_vaddr: large_obj_vaddr,
                        objects_rkey: large_obj_rkey,
                        bucket_count,
                        stage: GetStage::First,
                    })
                    &&& op@ == get_op(g@)
                    &&& get_wf(g@)
                },
                Err(e) => read::early_error(key.hash, bucket_count) == Some(e@),
            },
    {
        match Self::check_key(key.hash, bucket_count) {
            Ok(_) => (),
            Err(e) => return Err(e),
        }
        let g = RemoteGet {
            key: key.clone(),
            hash_table_vaddr,
            hash_table_rkey,
            large_obj_vaddr,
            large_obj_rkey,
            bucket_count,
            stage: GetStage::First,
        };
        let op = g.current_op();
        Ok((g, op))
    }
}

impl RemoteGet {
    /// The operation under way.
    fn current_op(&self) -> (op: RemoteOp)
        requires
            get_wf(self@),
        ensures
            op@ == get_op(self@),
    {
        let h1: u64 = cuckoo::primary_slot(self.key.hash, self.bucket_count);
        let h2: u64 = cuckoo::secondary_slot(self.key.hash, self.bucket_count);
        match self.stage {
            GetStage::First => RemoteOp::Read {
                addr: self.hash_table_vaddr + h1 * 64,
                rkey: self.hash_table_rkey,
                len: 64,
            },
            GetStage::Second => RemoteOp::Read {
                addr: self.hash_table_vaddr + h2 * 64,
                rkey: self.hash_table_rkey,
                len: 64,
            },
            GetStage::Extent { addr, len } => RemoteOp::Read {
                addr,
                rkey: self.large_obj_rkey,
                len,
            },
        }
    }

    /// Whether an unlocked bucket holds the key.
    fn is_hit(&self, bucket: &HashBucket) -> (b: bool)
        ensures
            b == read::hit(bucket@, self.key.hash, self.key.digest@),
    {
        !bucket.is_locked() && !bucket.is_tombstone() && bucket.matches_key(
            self.key.hash,
            &self.key.digest,
        )
    }

    /// Whether `reply` can be handed to [`step`](Self::step): it answers the
    /// operation under way, and the payload of an extent that a bucket refers to
    /// has an address.
    pub fn accepts(&self, reply: &RemoteReply) -> (b: bool)
        ensures
            b == get_accepts(self@, reply@),
    {
        match reply {
            RemoteReply::Failed(_) => true,
            RemoteReply::Written => false,
            RemoteReply::Swapped(_) => false,
            RemoteReply::Data(bytes) => match self.stage {
                GetStage::Extent { len, .. } => bytes.len() as u64 == len,
                _ => {
                    if bytes.len() != 64 {
                        return false;
                    }
                    let bucket: HashBucket = HashBucket::from_bytes(bytes);
                    if self.is_hit(&bucket) && bucket.is_extent() {
                        let (offset, _length): (u64, u64) = bucket.extent_ref();
                        match self.large_obj_vaddr.checked_add(offset) {
                            Some(at) => at.checked_add(extent::HEADER_SIZE).is_some(),
                            None => false,
                        }
                    } else {
                        true
                    }
                },
            },
        }
    }

    /// Goes on with the reply to the operation under way.
    pub fn step(&mut self, reply: RemoteReply) -> (r: GetStep)
        requires
            get_wf(old(self)@),
            get_accepts(old(self)@, reply@),
        ensures
            (final(self)@, r@) == get_step(old(self)@, reply@),
            get_wf(final(self)@),
    {
        let bytes: Vec<u8> = match reply {
            RemoteReply::Failed(e) => return GetStep::Finished(Err(e)),
            RemoteReply::Data(bytes) => bytes,
            _ => return GetStep::Finished(Ok(None)),
        };
        if let GetStage::Extent { .. } = self.stage {
            return GetStep::Finished(
                Ok(Some(ReadResult { value: bytes, mode: BucketMode::Extent })),
            );
        }
        let bucket: HashBucket = HashBucket::from_bytes(&bytes);
        if self.is_hit(&bucket) {
            if bucket.is_inline() {
                let value: Vec<u8> = vstd::slice::slice_to_vec(bucket.inline_value());
                return GetStep::Finished(Ok(Some(ReadResult { value, mode: BucketMode::Inline })));
            }
            let (offset, length): (u64, u64) = bucket.extent_ref();
            self.stage = GetStage::Extent {
                addr: self.large_obj_vaddr + offset + extent::HEADER_SIZE,
                len: length,
            };
            return GetStep::Issue(self.current_op());
        }
        match self.stage {
            GetStage::First => {
                self.stage = GetStage::Second;
                GetStep::Issue(self.current_op())
            },
            _ => GetStep::Finished(Ok(None)),
        }
    }
}

// ---------------------------------------------------------------------------
// Laws
// ---------------------------------------------------------------------------
/// The slots of `t` stand at `vaddr` in the memory, 64 bytes each.
pub open spec fn table_at(mem: Seq<u8>, vaddr: u64, t: Seq<Slot>) -> bool {
    &&& vaddr + 64 * t.len() <= mem.len() <= u64::MAX
    &&& forall|i: int| 0 <= i < t.len() ==> layout::bucket_sized(#[trigger] t[i])
    &&& forall|i: int|
        0 <= i < t.len() ==> mem.subrange(bucket_addr(vaddr, i), bucket_addr(vaddr, i) + 64)
            == layout::bucket_bytes(#[trigger] t[i])
}

/// A lookup run on a memory that nobody else touches, for at most `fuel`
/// operations; the result once there is one.
pub open spec fn run_get(g: GetView, mem: Seq<u8>, fuel: nat) -> Option<
    Result<Option<Found>, ErrorView>,
>
    decreases fuel,
{
    if fuel == 0 {
        None
    } else {
        let (_, reply) = transport::perform(mem, get_op(g));
        match get_step(g, reply) {
            (next, GetStepView::Issue(_)) => run_get(next, mem, (fuel - 1) as nat),
            (_, GetStepView::Finished(r)) => Some(r),
        }
    }
}

/// What a remote lookup makes of the slot that it hits: the body in Inline mode,
/// the payload of the referenced extent in Extent mode.
pub open spec fn remote_value(mem: Seq<u8>, objects_vaddr: u64, s: Slot) -> Found {
    if layout::word_extent(s.lock) {
        let (off, len) = layout::body_extent_ref(s.body);
        let from = payload_addr(objects_vaddr, off as int);
        (mem.subrange(from, from + len), true)
    } else {
        (s.body, false)
    }
}

/// The slot of the table that a lookup hits: the first candidate before the
/// second.
pub open spec fn hit_slot(t: Seq<Slot>, hash: u64, digest: Seq<u8>, n: int) -> Option<Slot> {
    if read::hit(t[cuckoo::h1_of(hash, n)], hash, digest) {
        Some(t[cuckoo::h1_of(hash, n)])
    } else if read::hit(t[cuckoo::h2_of(hash, n)], hash, digest) {
        Some(t[cuckoo::h2_of(hash, n)])
    } else {
        None
    }
}

/// A lookup over a memory that holds a table finds what the table holds, in at
/// most three operations.
pub proof fn law_remote_get(g: GetView, mem: Seq<u8>, t: Seq<Slot>)
    requires
        g.stage is First,
        cuckoo::two_choice(g.bucket_count as int),
        t.len() == g.bucket_count,
        table_at(mem, g.table_vaddr, t),
        hit_slot(t, g.hash, g.digest, g.bucket_count as int) matches Some(s) ==> (
        layout::word_extent(s.lock) ==> payload_addr(
            g.objects_vaddr,
            layout::body_extent_ref(s.body).0 as int,
        ) <= u64::MAX),
    ensures
        run_get(g, mem, 3) == Some(
            Ok::<Option<Found>, ErrorView>(
                match hit_slot(t, g.hash, g.digest, g.bucket_count as int) {
                    None => None,
                    Some(s) => Some(remote_value(mem, g.objects_vaddr, s)),
                },
            ),
        ),
{
    let n = g.bucket_count as int;
    cuckoo::lemma_candidates(g.hash, n);
    let (a, b) = (cuckoo::h1_of(g.hash, n), cuckoo::h2_of(g.hash, n));
    layout::law_slot_reads_back(t[a]);
    layout::law_slot_reads_back(t[b]);
    assert(mem.subrange(bucket_addr(g.table_vaddr, a), bucket_addr(g.table_vaddr, a) + 64)
        == layout::bucket_bytes(t[a]));
    assert(mem.subrange(bucket_addr(g.table_vaddr, b), bucket_addr(g.table_vaddr, b) + 64)
        == layout::bucket_bytes(t[b]));
    layout::lemma_extent_ref_bound(t[a].body);
    layout::lemma_extent_ref_bound(t[b].body);
    reveal_with_fuel(run_get, 4);
}

/// A lookup reads the two candidate buckets with the key of the table, 64 bytes each, and
/// an extent with the key of the object region; it never writes.
pub proof fn law_get_reads_only(g: GetView)
    requires
        get_wf(g),
    ensures
        ({
            let n = g.bucket_count as int;
            let hash = g.hash as int;
            &&& g.stage is First ==> get_op(g) == (OpView::Read {
                addr: (g.table_vaddr + 64 * (hash % n)) as u64,
                rkey: g.table_rkey,
                len: 64,
            })
            &&& g.stage is Second ==> get_op(g) == (OpView::Read {
                addr: (g.table_vaddr + 64 * cuckoo::h2_of(g.hash, n)) as u64,
                rkey: g.table_rkey,
                len: 64,
            })
            &&& g.stage is Extent ==> get_op(g) is Read && get_op(g)->Read_rkey == g.objects_rkey
        }),
{
}

/// A failed operation ends a lookup with its error, in every stage. A bucket that is
/// locked, deleted or of another key is passed over: the lookup goes on to the second
/// bucket, and after that one the key is not found.
pub proof fn law_get_passes_over(g: GetView, e: ErrorView, bytes: Seq<u8>)
    requires
        g.stage !is Extent,
    ensures
        get_step(g, ReplyView::Failed(e)).1 == GetStepView::Finished(
            Err::<Option<Found>, ErrorView>(e),
        ),
        ({
            let s = layout::slot_of(bytes);
            let (next, step) = get_step(g, ReplyView::Data(bytes));
            s.hash != g.hash || s.digest != g.digest || layout::word_locked(s.lock)
                || layout::word_tombstone(s.lock) ==> if g.stage is First {
                next.stage is Second && step == GetStepView::Issue(get_op(next))
            } else {
                step == GetStepView::Finished(Ok::<Option<Found>, ErrorView>(None))
            }
        }),
{
}

/// The replies that a lookup can be handed: any failure, and the bytes that were asked
/// for; of a bucket, unless it refers to an extent whose payload has no address.
pub proof fn law_get_accepts(g: GetView, e: ErrorView, bytes: Seq<u8>)
    ensures
        get_accepts(g, ReplyView::Failed(e)),
        g.stage is Extent ==> (get_accepts(g, ReplyView::Data(bytes)) <==> bytes.len()
            == g.stage->Extent_len),
        g.stage !is Extent && bytes.len() == 64 && !read::hit(
            layout::slot_of(bytes),
            g.hash,
            g.digest,
        ) ==> get_accepts(g, ReplyView::Data(bytes)),
        g.stage !is Extent && bytes.len() != 64 ==> !get_accepts(g, ReplyView::Data(bytes)),
{
}

} // verus!
