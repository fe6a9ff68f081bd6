//! Distributed extent allocation: a CAS bump allocator over remote memory.
//!
//! Clients atomically advance a shared `bump_offset` to reserve extent space
//! without server CPU involvement. [`RemoteAllocation`] is one allocation as a
//! state machine over remote operations.

use vstd::prelude::*;

use crate::codec;
use crate::engine::concurrency;
use crate::engine::extent;
use crate::engine::extent_laws;
use crate::engine::layout::{ExtentHeaderV2, EXTENT_MAGIC};
use crate::error::{ErrorView, RdmaError};
use crate::transport;
use crate::transport::{OpView, RemoteOp, RemoteReply, ReplyView};

verus! {

// ---------------------------------------------------------------------------
// Model
// ---------------------------------------------------------------------------
/// Where an allocation stands: which operation is under way. `base` is the bump
/// offset that was read, or the freed offset that is reused.
#[derive(Debug, Clone, Copy, PartialEq, Eq, Structural)]
pub enum AllocStage {
    ReadBump,
    CasBump { base: u64 },
    WriteHeader { base: u64 },
    WritePayload { base: u64 },
    WriteChecksum { base: u64 },
}

/// An allocation as a value.
#[verifier::ext_equal]
pub struct AllocView {
    pub data: Seq<u8>,
    /// Address of the shared bump offset, and of offset zero.
    pub vaddr: u64,
    pub rkey: u32,
    pub stage: AllocStage,
}

/// What an allocation does next.
pub enum AllocStepView {
    Issue(OpView),
    Finished(Result<u64, ErrorView>),
}

/// The operation that is under way in a stage.
pub open spec fn alloc_op(a: AllocView) -> OpView {
    match a.stage {
        AllocStage::ReadBump => OpView::Read { addr: a.vaddr, rkey: a.rkey, len: 8 },
        AllocStage::CasBump { base } => OpView::Cas {
            addr: a.vaddr,
            rkey: a.rkey,
            compare: base,
            swap: (base + extent::extent_footprint(a.data.len() as int)) as u64,
        },
        AllocStage::WriteHeader { base } => OpView::Write {
            addr: (a.vaddr + base) as u64,
            rkey: a.rkey,
            bytes: extent::live_header(a.data.len() % 0x1_0000_0000, 0),
        },
        AllocStage::WritePayload { base } => OpView::Write {
            addr: (a.vaddr + base + 32) as u64,
            rkey: a.rkey,
            bytes: a.data,
        },
        AllocStage::WriteChecksum { base } => OpView::Write {
            addr: (a.vaddr + base + 24) as u64,
            rkey: a.rkey,
            bytes: codec::le_digits(crate::hash::xxh64_of(a.data, 0) as nat, 8),
        },
    }
}

/// The stage that follows when the operation under way succeeds; none after the
/// last.
pub open spec fn stage_after(a: AllocView, reply: ReplyView) -> Option<AllocStage> {
    match a.stage {
        AllocStage::ReadBump => Some(
            AllocStage::CasBump { base: codec::le_value(reply->Data_0) as u64 },
        ),
        AllocStage::CasBump { base } => Some(AllocStage::WriteHeader { base }),
        AllocStage::WriteHeader { base } => Some(AllocStage::WritePayload { base }),
        AllocStage::WritePayload { base } => Some(AllocStage::WriteChecksum { base }),
        AllocStage::WriteChecksum { .. } => None,
    }
}

/// The offset that an allocation past its first stage reserves.
pub open spec fn base_of(stage: AllocStage) -> u64 {
    match stage {
        AllocStage::ReadBump => 0,
        AllocStage::CasBump { base } => base,
        AllocStage::WriteHeader { base } => base,
        AllocStage::WritePayload { base } => base,
        AllocStage::WriteChecksum { base } => base,
    }
}

/// One step: a failure ends the allocation with its error, a lost race for the
/// bump offset with [`RdmaError::CasFailed`], and the last write with the offset.
pub open spec fn alloc_step(a: AllocView, reply: ReplyView) -> (AllocView, AllocStepView) {
    match reply {
        ReplyView::Failed(e) => (a, AllocStepView::Finished(Err(e))),
        _ => if reply == ReplyView::Swapped(false) {
            (a, AllocStepView::Finished(Err(ErrorView::CasFailed)))
        } else {
            match stage_after(a, reply) {
                Some(stage) => {
                    let next = AllocView { stage, ..a };
                    (next, AllocStepView::Issue(alloc_op(next)))
                },
                None => (a, AllocStepView::Finished(Ok(base_of(a.stage)))),
            }
        },
    }
}

/// The extent that would start at bump offset `base` has addresses that fit in a
/// `u64`.
pub open spec fn reserves_in_range(a: AllocView, base: int) -> bool {
    a.vaddr + base + extent::extent_footprint(a.data.len() as int) <= u64::MAX
}

/// The reply can be worked on: it answers the operation under way, and a bump
/// offset that was read leaves room in the address space.
pub open spec fn alloc_accepts(a: AllocView, reply: ReplyView) -> bool {
    &&& transport::answers(reply, alloc_op(a))
    &&& a.stage is ReadBump ==> (reply matches ReplyView::Data(bytes) ==> reserves_in_range(
        a,
        codec::le_value(bytes) as int,
    ))
}

/// The addresses of the stage fit in a `u64`.
pub open spec fn alloc_wf(a: AllocView) -> bool {
    &&& a.data.len() + 39 <= u64::MAX
    &&& a.stage !is ReadBump ==> reserves_in_range(a, base_of(a.stage) as int)
}

/// The allocation of `data` that reserves space by the bump offset.
pub open spec fn bumping(vaddr: u64, rkey: u32, data: Seq<u8>) -> AllocView {
    AllocView { data, vaddr, rkey, stage: AllocStage::ReadBump }
}

/// The allocation of `data` that reuses the freed offset `base`: nothing is left
/// to reserve, so it starts with the header.
pub open spec fn reusing(vaddr: u64, rkey: u32, data: Seq<u8>, base: u64) -> AllocView {
    AllocView { data, vaddr, rkey, stage: AllocStage::WriteHeader { base } }
}

/// How an allocation begins when `offsets` are known to be free: the offsets that
/// are left, and the allocation. The offset cached last is tried first; one whose
/// extent would run past the address space is dropped. When none is left, the
/// bump offset is used.
pub open spec fn begun(offsets: Seq<u64>, vaddr: u64, rkey: u32, data: Seq<u8>) -> (
    Seq<u64>,
    AllocView,
)
    decreases offsets.len(),
{
    if offsets.len() == 0 {
        (offsets, bumping(vaddr, rkey, data))
    } else {
        let a = reusing(vaddr, rkey, data, offsets.last());
        if reserves_in_range(a, offsets.last() as int) {
            (offsets.drop_last(), a)
        } else {
            begun(offsets.drop_last(), vaddr, rkey, data)
        }
    }
}

// ---------------------------------------------------------------------------
// RemoteAllocation
// ---------------------------------------------------------------------------
/// One remote allocation.
///
/// # Protocol
///
/// 1. READ the shared `bump_offset` (old value).
/// 2. Compute `new = old + extent_total(data_len)`.
/// 3. CAS `bump_offset` from `old` to `new`.
/// 4. On success: write the header (checksum=0), then the payload, then
///    the checksum.
/// 5. The allocated offset is the old value.
///
/// An allocation at a freed offset begins with step 4, and ends with that offset.
#[derive(Debug)]
pub struct RemoteAllocation {
    pub data: Vec<u8>,
    pub free_list_vaddr: u64,
    pub free_list_rkey: u32,
    pub stage: AllocStage,
}

/// What a remote allocation does next.
#[derive(Debug)]
pub enum AllocStep {
    /// Perform the operation and hand its reply to the next step.
    Issue(RemoteOp),
    /// The allocation is over: the offset of the extent, or the error.
    Finished(Result<u64, RdmaError>),
}

impl View for AllocStep {
    type V = AllocStepView;

    open spec fn view(&self) -> AllocStepView {
        match *self {
            AllocStep::Issue(op) => AllocStepView::Issue(op@),
            AllocStep::Finished(r) => AllocStepView::Finished(
                match r {
                    Ok(off) => Ok(off),
                    Err(e) => Err(e@),
                },
            ),
        }
    }
}

impl View for RemoteAllocation {
    type V = AllocView;

    open spec fn view(&self) -> AllocView {
        AllocView {
            data: self.data@,
            vaddr: self.free_list_vaddr,
            rkey: self.free_list_rkey,
            stage: self.stage,
        }
    }
}

impl RemoteAllocation {
    /// Begins an allocation for `data`; the operation to perform first.
    pub fn start(free_list_vaddr: u64, free_list_rkey: u32, data: &[u8]) -> (r: (
        RemoteAllocation,
        RemoteOp,
    ))
        requires
            data@.len() + 39 <= u64::MAX,
        ensures
            r.0@ == bumping(free_list_vaddr, free_list_rkey, data@),
            r.1@ == alloc_op(r.0@),
            alloc_wf(r.0@),
    {
        let a = RemoteAllocation {
            data: vstd::slice::slice_to_vec(data),
            free_list_vaddr,
            free_list_rkey,
            stage: AllocStage::ReadBump,
        };
        let op = a.current_op();
        (a, op)
    }

    /// Begins an allocation for `data` at the freed offset `base`; the operation
    /// to perform first.
    fn reuse(free_list_vaddr: u64, free_list_rkey: u32, data: &[u8], base: u64) -> (r: (
        RemoteAllocation,
        RemoteOp,
    ))
        requires
            alloc_wf(reusing(free_list_vaddr, free_list_rkey, data@, base)),
        ensures
            r.0@ == reusing(free_list_vaddr, free_list_rkey, data@, base),
            r.1@ == alloc_op(r.0@),
    {
        let a = RemoteAllocation {
            data: vstd::slice::slice_to_vec(data),
            free_list_vaddr,
            free_list_rkey,
            stage: AllocStage::WriteHeader { base },
        };
        let op = a.current_op();
        (a, op)
    }

    /// Whether an extent of `total` bytes at offset `base` ends inside the address
    /// space.
    fn in_range(free_list_vaddr: u64, base: u64, total: u64) -> (b: bool)
        ensures
            b == (free_list_vaddr + base + total <= u64::MAX),
    {
        match base.checked_add(total) {
            Some(end) => free_list_vaddr.checked_add(end).is_some(),
            None => false,
        }
    }

    /// The operation under way.
    fn current_op(&self) -> (op: RemoteOp)
        requires
            alloc_wf(self@),
        ensures
            op@ == alloc_op(self@),
    {
        let total: u64 = extent::extent_total(self.data.len() as u64);
        match self.stage {
            AllocStage::ReadBump => RemoteOp::Read {
                addr: self.free_list_vaddr,
                rkey: self.free_list_rkey,
                len: 8,
            },
            AllocStage::CasBump { base } => RemoteOp::Cas {
                addr: self.free_list_vaddr,
                rkey: self.free_list_rkey,
                compare: base,
                swap: base + total,
            },
            AllocStage::WriteHeader { base } => {
                let n: u64 = self.data.len() as u64;
                let hdr = ExtentHeaderV2::live((n % 0x1_0000_0000) as u32, 0);
                let bytes: Vec<u8> = hdr.to_bytes();
                assert(bytes@ =~= extent::live_header(self.data@.len() % 0x1_0000_0000, 0));
                RemoteOp::Write {
                    addr: self.free_list_vaddr + base,
                    rkey: self.free_list_rkey,
                    bytes,
                }
            },
            AllocStage::WritePayload { base } => RemoteOp::Write {
                addr: self.free_list_vaddr + base + 32,
                rkey: self.free_list_rkey,
                bytes: vstd::slice::slice_to_vec(&self.data),
            },
            AllocStage::WriteChecksum { base } => {
                let checksum: u64 = crate::hash::xxh64(&self.data, 0);
                let digits: [u8; 8] = codec::encode_u64(checksum);
                RemoteOp::Write {
                    addr: self.free_list_vaddr + base + 24,
                    rkey: self.free_list_rkey,
                    bytes: vstd::slice::slice_to_vec(&digits),
                }
            },
        }
    }

    /// Whether `reply` can be handed to [`step`](Self::step): it answers the
    /// operation under way, and a bump offset that was read leaves room for the
    /// extent in the address space.
    pub fn accepts(&self, reply: &RemoteReply) -> (b: bool)
        requires
            alloc_wf(self@),
        ensures
            b == alloc_accepts(self@, reply@),
    {
        match reply {
            RemoteReply::Failed(_) => true,
            RemoteReply::Data(bytes) => match self.stage {
                AllocStage::ReadBump => {
                    if bytes.len() != 8 {
                        return false;
                    }
                    let base: u64 = codec::read_u64(bytes, 0);
                    assert(bytes@.subrange(0, 8) =~= bytes@);
                    let total: u64 = extent::extent_total(self.data.len() as u64);
                    Self::in_range(self.free_list_vaddr, base, total)
                },
                _ => false,
            },
            RemoteReply::Written => match self.stage {
                AllocStage::ReadBump => false,
                AllocStage::CasBump { .. } => false,
                _ => true,
            },
            RemoteReply::Swapped(_) => match self.stage {
                AllocStage::CasBump { .. } => true,
                _ => false,
            },
        }
    }

    /// Goes on with the reply to the operation under way.
    pub fn step(&mut self, reply: RemoteReply) -> (r: AllocStep)
        requires
            alloc_wf(old(self)@),
            alloc_accepts(old(self)@, reply@),
        ensures
            (final(self)@, r@) == alloc_step(old(self)@, reply@),
            alloc_wf(final(self)@),
    {
        let next: AllocStage = match reply {
            RemoteReply::Failed(e) => return AllocStep::Finished(Err(e)),
            RemoteReply::Swapped(false) => return AllocStep::Finished(Err(RdmaError::CasFailed)),
            RemoteReply::Data(bytes) => {
                let base: u64 = codec::read_u64(&bytes, 0);
                assert(bytes@.subrange(0, 8) =~= bytes@);
                AllocStage::CasBump { base }
            },
            RemoteReply::Swapped(true) => match self.stage {
                AllocStage::CasBump { base } => AllocStage::WriteHeader { base },
                other => other,
            },
            RemoteReply::Written => match self.stage {
                AllocStage::WriteHeader { base } => AllocStage::WritePayload { base },
                AllocStage::WritePayload { base } => AllocStage::WriteChecksum { base },
                AllocStage::WriteChecksum { base } => return AllocStep::Finished(Ok(base)),
                other => other,
            },
        };
        self.stage = next;
        AllocStep::Issue(self.current_op())
    }
}

// ---------------------------------------------------------------------------
// DistributedExtentAllocator
// ---------------------------------------------------------------------------
/// Distributed extent allocator that uses CAS on a shared `bump_offset`
/// to atomically reserve extent space on the server.
///
/// # Local free list
///
/// Offsets received from the server via `SyncFreeList` RPC are cached in
/// `local_free_offsets` and tried before bump-allocating. An offset comes without
/// a length: whoever caches it answers for the room behind it.
#[derive(Debug)]
pub struct DistributedExtentAllocator {
    /// Remote FreeList region virtual address.
    pub free_list_vaddr: u64,
    /// Remote FreeList region rkey.
    pub free_list_rkey: u32,
    /// Local MR lkey for the data buffer.
    pub local_lkey: u32,
    /// Locally cached freed offsets (from SyncFreeList RPC).
    pub local_free_offsets: Vec<u64>,
}

impl DistributedExtentAllocator {
    /// Create a new distributed extent allocator.
    pub fn new(free_list_vaddr: u64, free_list_rkey: u32, local_lkey: u32) -> (r: Self)
        ensures
            r.free_list_vaddr == free_list_vaddr,
            r.free_list_rkey == free_list_rkey,
            r.local_lkey == local_lkey,
            r.local_free_offsets@ == Seq::<u64>::empty(),
    {
        DistributedExtentAllocator {
            free_list_vaddr,
            free_list_rkey,
            local_lkey,
            local_free_offsets: Vec::new(),
        }
    }

    /// Begins the allocation of an extent remotely: at a cached freed offset, or
    /// by the CAS bump allocator when none is cached.
    ///
    /// The allocation ends with the byte offset of the new extent within the
    /// FreeList region.
    pub fn allocate_remote(&mut self, data: &[u8]) -> (r: (RemoteAllocation, RemoteOp))
        requires
            data@.len() + 39 <= u64::MAX,
        ensures
            (final(self).local_free_offsets@, r.0@) == begun(
                old(self).local_free_offsets@,
                old(self).free_list_vaddr,
                old(self).free_list_rkey,
                data@,
            ),
            r.1@ == alloc_op(r.0@),
            alloc_wf(r.0@),
            final(self).free_list_vaddr == old(self).free_list_vaddr,
            final(self).free_list_rkey == old(self).free_list_rkey,
            final(self).local_lkey == old(self).local_lkey,
    {
        let total: u64 = extent::extent_total(data.len() as u64);
        let ghost (vaddr, rkey) = (self.free_list_vaddr, self.free_list_rkey);
        while self.local_free_offsets.len() > 0
            invariant
                data@.len() + 39 <= u64::MAX,
                total == extent::extent_footprint(data@.len() as int),
                begun(self.local_free_offsets@, vaddr, rkey, data@) == begun(
                    old(self).local_free_offsets@,
                    vaddr,
                    rkey,
                    data@,
                ),
                vaddr == old(self).free_list_vaddr,
                rkey == old(self).free_list_rkey,
                self.free_list_vaddr == vaddr,
                self.free_list_rkey == rkey,
                self.local_lkey == old(self).local_lkey,
            decreases self.local_free_offsets@.len(),
        {
            let ghost before = self.local_free_offsets@;
            if let Some(base) = self.local_free_offsets.pop() {
                assert(base == before.last() && self.local_free_offsets@ == before.drop_last());
                if RemoteAllocation::in_range(self.free_list_vaddr, base, total) {
                    return RemoteAllocation::reuse(
                        self.free_list_vaddr,
                        self.free_list_rkey,
                        data,
                        base,
                    );
                }
            }
        }
        RemoteAllocation::start(self.free_list_vaddr, self.free_list_rkey, data)
    }
}

// ---------------------------------------------------------------------------
// Laws
// ---------------------------------------------------------------------------
/// An allocation run on a memory that nobody else touches, for at most `fuel`
/// operations: the memory afterwards, and the result once there is one.
pub open spec fn run_alloc(a: AllocView, mem: Seq<u8>, fuel: nat) -> (
    Seq<u8>,
    Option<Result<u64, ErrorView>>,
)
    decreases fuel,
{
    if fuel == 0 {
        (mem, None)
    } else {
        let (m, reply) = transport::perform(mem, alloc_op(a));
        match alloc_step(a, reply) {
            (next, AllocStepView::Issue(_)) => run_alloc(next, m, (fuel - 1) as nat),
            (_, AllocStepView::Finished(r)) => (m, Some(r)),
        }
    }
}

/// The memory after a complete allocation: the bump offset has moved past the
/// extent, and the extent stands at the old bump offset with its checksum.
pub open spec fn allocated_memory(a: AllocView, mem: Seq<u8>, base: u64) -> Seq<u8> {
    let need = extent::extent_footprint(a.data.len() as int);
    extent::with_extent(
        codec::splice(mem, a.vaddr as int, codec::le_digits((base + need) as nat, 8)),
        a.vaddr + base,
        a.data,
        crate::hash::xxh64_of(a.data, 0) as nat,
    )
}

/// A remote allocation that is not disturbed takes five operations, reserves the
/// extent at the bump offset that it found, and leaves there the header, the
/// payload and the checksum of the payload. The law asks for a bump offset that
/// lies behind the bump word itself.
pub proof fn law_remote_allocation(a: AllocView, mem: Seq<u8>)
    requires
        a.stage is ReadBump,
        a.vaddr + 8 <= mem.len(),
        mem.len() <= u64::MAX,
        codec::le_u64_at(mem, a.vaddr as int) >= 8,
        a.vaddr + codec::le_u64_at(mem, a.vaddr as int) + extent::extent_footprint(
            a.data.len() as int,
        ) <= mem.len(),
    ensures
        ({
            let base = codec::le_u64_at(mem, a.vaddr as int) as u64;
            run_alloc(a, mem, 5) == (allocated_memory(a, mem, base), Some(Ok::<u64, ErrorView>(base)))
        }),
{
    let base = codec::le_u64_at(mem, a.vaddr as int) as u64;
    codec::lemma_le_value_bound(mem.subrange(a.vaddr as int, a.vaddr + 8));
    reveal_with_fuel(codec::byte_range, 9);
    let need = extent::extent_footprint(a.data.len() as int);
    let at = a.vaddr + base;
    let ck = crate::hash::xxh64_of(a.data, 0) as nat;
    let n = a.data.len() % 0x1_0000_0000;
    codec::lemma_decode_encode(EXTENT_MAGIC as nat, 4);
    codec::lemma_decode_encode(n, 4);
    codec::lemma_decode_encode(0, 8);
    codec::lemma_decode_encode(ck, 8);
    codec::lemma_decode_encode((base + need) as nat, 8);
    let m2 = codec::splice(mem, a.vaddr as int, codec::le_digits((base + need) as nat, 8));
    let m3 = codec::splice(m2, at, extent::live_header(n, 0));
    let m4 = codec::splice(m3, at + 32, a.data);
    let m5 = codec::splice(m4, at + 24, codec::le_digits(ck, 8));
    assert(extent::live_header(n, 0).len() == 32);
    assert(extent::live_header(n, ck).len() == 32);
    assert(m5 =~= extent::with_extent(m2, at, a.data, ck));
    reveal_with_fuel(run_alloc, 6);
}

/// A finished remote allocation can be read: the extent at the returned offset
/// holds the data and the checksum of the data, when the data is shorter than
/// `2^32`.
pub proof fn law_remote_allocation_reads_back(a: AllocView, mem: Seq<u8>)
    requires
        a.stage is ReadBump,
        a.vaddr + 8 <= mem.len(),
        mem.len() <= u64::MAX,
        codec::le_u64_at(mem, a.vaddr as int) >= 8,
        a.vaddr + codec::le_u64_at(mem, a.vaddr as int) + extent::extent_footprint(
            a.data.len() as int,
        ) <= mem.len(),
        a.data.len() <= u32::MAX,
    ensures
        ({
            let (m, r) = run_alloc(a, mem, 5);
            &&& r matches Some(Ok(base)) && {
                &&& extent::extent_payload(m, a.vaddr + base) == Some(a.data)
                &&& extent::extent_checksum(m, a.vaddr + base) == Some(
                    crate::hash::xxh64_of(a.data, 0),
                )
            }
        }),
{
    law_remote_allocation(a, mem);
    let base = codec::le_u64_at(mem, a.vaddr as int) as u64;
    let need = extent::extent_footprint(a.data.len() as int);
    reveal_with_fuel(codec::byte_range, 9);
    codec::lemma_le_value_bound(mem.subrange(a.vaddr as int, a.vaddr + 8));
    codec::lemma_decode_encode((base + need) as nat, 8);
    let m2 = codec::splice(mem, a.vaddr as int, codec::le_digits((base + need) as nat, 8));
    assert(m2.len() == mem.len());
    extent_laws::law_written_extent_reads_back(
        m2,
        a.vaddr + base,
        a.data,
        crate::hash::xxh64_of(a.data, 0) as nat,
    );
}

/// A cached freed offset comes before the bump offset: whenever an offset is
/// cached whose extent ends inside the address space, the allocation starts at a
/// cached offset, which leaves the cache, and reserves nothing.
pub proof fn law_cached_offset_comes_first(
    offsets: Seq<u64>,
    vaddr: u64,
    rkey: u32,
    data: Seq<u8>,
    i: int,
)
    requires
        0 <= i < offsets.len(),
        vaddr + offsets[i] + extent::extent_footprint(data.len() as int) <= u64::MAX,
    ensures
        ({
            let (rest, a) = begun(offsets, vaddr, rkey, data);
            &&& exists|j: int|
                i <= j < offsets.len() && rest == offsets.take(j) && a == reusing(
                    vaddr,
                    rkey,
                    data,
                    #[trigger] offsets[j],
                )
        }),
    decreases offsets.len(),
{
    let n = offsets.len() - 1;
    assert(offsets.drop_last() =~= offsets.take(n));
    let a = reusing(vaddr, rkey, data, offsets.last());
    if reserves_in_range(a, offsets.last() as int) {
        assert(begun(offsets, vaddr, rkey, data) == (offsets.take(n), reusing(
            vaddr,
            rkey,
            data,
            offsets[n],
        )));
    } else {
        let less = offsets.drop_last();
        law_cached_offset_comes_first(less, vaddr, rkey, data, i);
        let (rest, found) = begun(less, vaddr, rkey, data);
        let j = choose|j: int|
            i <= j < less.len() && rest == less.take(j) && found == reusing(
                vaddr,
                rkey,
                data,
                #[trigger] less[j],
            );
        assert(less.take(j) =~= offsets.take(j));
        assert(less[j] == offsets[j]);
    }
}

/// An allocation at a freed offset takes three operations, leaves the header, the
/// payload and the checksum of the payload there, and touches no byte outside the
/// extent: the bump offset stays. The extent reads back when the data is shorter
/// than `2^32`.
pub proof fn law_reused_offset(a: AllocView, mem: Seq<u8>, base: u64)
    requires
        a.stage == (AllocStage::WriteHeader { base }),
        mem.len() <= u64::MAX,
        a.vaddr + base + extent::extent_footprint(a.data.len() as int) <= mem.len(),
    ensures
        ({
            let (m, r) = run_alloc(a, mem, 3);
            let at = a.vaddr + base;
            &&& r == Some(Ok::<u64, ErrorView>(base))
            &&& m == extent::with_extent(
                mem,
                at,
                a.data,
                crate::hash::xxh64_of(a.data, 0) as nat,
            )
            &&& m.len() == mem.len()
            &&& forall|i: int|
                0 <= i < mem.len() && !(at <= i < at + 32 + a.data.len()) ==> #[trigger] m[i]
                    == mem[i]
            &&& a.data.len() <= u32::MAX ==> extent::extent_payload(m, at) == Some(a.data)
            &&& a.data.len() <= u32::MAX ==> extent::extent_checksum(m, at) == Some(
                crate::hash::xxh64_of(a.data, 0),
            )
        }),
{
    let at = a.vaddr + base;
    let ck = crate::hash::xxh64_of(a.data, 0) as nat;
    let n = a.data.len() % 0x1_0000_0000;
    extent::lemma_rounded_up(32 + a.data.len() as int, 8);
    reveal_with_fuel(codec::byte_range, 9);
    codec::lemma_decode_encode(EXTENT_MAGIC as nat, 4);
    codec::lemma_decode_encode(n, 4);
    codec::lemma_decode_encode(0, 8);
    codec::lemma_decode_encode(ck, 8);
    let m1 = codec::splice(mem, at, extent::live_header(n, 0));
    let m2 = codec::splice(m1, at + 32, a.data);
    let m3 = codec::splice(m2, at + 24, codec::le_digits(ck, 8));
    assert(extent::live_header(n, 0).len() == 32);
    assert(extent::live_header(n, ck).len() == 32);
    assert(m3 =~= extent::with_extent(mem, at, a.data, ck));
    reveal_with_fuel(run_alloc, 4);
    if a.data.len() <= u32::MAX {
        extent_laws::law_written_extent_reads_back(mem, at, a.data, ck);
    }
}

/// Until the last operation, the extent shows the write-in-progress checksum,
/// which no payload is accepted under.
pub proof fn law_unfinished_extent_is_rejected(mem: Seq<u8>, at: int, data: Seq<u8>, computed: u64)
    requires
        0 <= at,
        at + 32 + data.len() <= mem.len(),
    ensures
        ({
            let m = codec::splice(mem, at, extent::live_header(data.len() % 0x1_0000_0000, 0));
            &&& extent::extent_checksum(m, at) == Some(0u64)
            &&& !concurrency::checksum_accepts(extent::extent_checksum(m, at)->0, computed)
        }),
{
    let n = data.len() % 0x1_0000_0000;
    let hdr = extent::live_header(n, 0);
    let m = codec::splice(mem, at, hdr);
    reveal_with_fuel(codec::byte_range, 9);
    codec::lemma_decode_encode(EXTENT_MAGIC as nat, 4);
    codec::lemma_decode_encode(n, 4);
    codec::lemma_decode_encode(0, 8);
    codec::lemma_decode_encode(0, 4);
    extent_laws::lemma_zero_digits();
    assert(m.subrange(at, at + 4) =~= codec::le_digits(EXTENT_MAGIC as nat, 4));
    assert(m.subrange(at + 16, at + 20) =~= codec::le_digits(0, 4));
    assert(m.subrange(at + 24, at + 32) =~= codec::le_digits(0, 8));
}

/// A failed operation ends an allocation with its error, in every stage; a lost race for
/// the bump offset ends it with a failed compare-and-swap, before anything is written.
pub proof fn law_allocation_failures(a: AllocView, e: ErrorView)
    ensures
        alloc_step(a, ReplyView::Failed(e)).1 == AllocStepView::Finished(Err::<u64, ErrorView>(e)),
        alloc_step(a, ReplyView::Swapped(false)).1 == AllocStepView::Finished(
            Err::<u64, ErrorView>(ErrorView::CasFailed),
        ),
        a.stage is CasBump ==> alloc_op(a) is Cas,
        a.stage is ReadBump ==> alloc_op(a) is Read,
{
}

/// The bump offset is moved by a compare-and-swap against the value that was read, by the
/// bytes that the extent takes up: 32 and the data, as a multiple of eight.
pub proof fn law_bump_is_moved(a: AllocView, base: u64)
    requires
        a.stage == (AllocStage::CasBump { base }),
        a.data.len() + 39 <= u64::MAX,
    ensures
        alloc_op(a) == (OpView::Cas {
            addr: a.vaddr,
            rkey: a.rkey,
            compare: base,
            swap: (base + extent_laws::taken_up(a.data.len() as int)) as u64,
        }),
{
}

/// Every operation of an allocation goes to the free list region with its key.
pub proof fn law_allocation_uses_its_key(a: AllocView)
    ensures
        ({
            let rkey = match alloc_op(a) {
                OpView::Read { rkey, .. } => rkey,
                OpView::Write { rkey, .. } => rkey,
                OpView::Cas { rkey, .. } => rkey,
            };
            rkey == a.rkey
        }),
{
}

/// The replies that an allocation can be handed: any failure, and what answers the
/// operation under way; a bump offset only when the extent behind it ends inside the
/// address space.
pub proof fn law_allocation_accepts(a: AllocView, e: ErrorView, bytes: Seq<u8>)
    ensures
        alloc_accepts(a, ReplyView::Failed(e)),
        a.stage is CasBump ==> alloc_accepts(a, ReplyView::Swapped(true)) && alloc_accepts(
            a,
            ReplyView::Swapped(false),
        ),
        a.stage is WriteHeader || a.stage is WritePayload || a.stage is WriteChecksum
            ==> alloc_accepts(a, ReplyView::Written),
        a.stage is ReadBump && bytes.len() == 8 ==> (alloc_accepts(a, ReplyView::Data(bytes))
            <==> a.vaddr + codec::le_value(bytes) + extent_laws::taken_up(a.data.len() as int)
            <= u64::MAX),
{
}

} // verus!
