//! HugePages-backed memory: the size of a region, and the steps by which it is
//! allocated.
//!
//! # Design
//!
//! - A region is mapped from 2MB HugePages, locked so that no page faults occur
//!   during RDMA operations, and registered with the device.
//! - [`RegionAllocation`] decides what follows each of these system calls; the
//!   caller performs them.

use vstd::prelude::*;
use vstd::string::*;

use crate::error::{ErrorView, RdmaError};
use crate::rdma::mr::DEFAULT_ACCESS;
use crate::text;

verus! {

/// Size of a single 2MB HugePage.
pub const HUGE_PAGE_SIZE: usize = 2_097_152;

/// The smallest positive number of whole pages that holds `size` bytes, in bytes.
pub open spec fn rounded(size: int) -> int {
    if size == 0 {
        HUGE_PAGE_SIZE as int
    } else {
        ((size + HUGE_PAGE_SIZE - 1) / (HUGE_PAGE_SIZE as int)) * HUGE_PAGE_SIZE
    }
}

/// Round `size` up to the nearest `HUGE_PAGE_SIZE` boundary.
///
/// If `size` is 0, returns `HUGE_PAGE_SIZE` (minimum allocation of
/// one HugePage).
pub fn round_up(size: usize) -> (r: usize)
    requires
        size + HUGE_PAGE_SIZE - 1 <= usize::MAX,
    ensures
        r == rounded(size as int),
{
    if size == 0 {
        return HUGE_PAGE_SIZE;
    }
    let pages: usize = (size + (HUGE_PAGE_SIZE - 1)) / HUGE_PAGE_SIZE;
    pages * HUGE_PAGE_SIZE
}

/// A rounded size is a whole number of pages, at least one, that holds the
/// requested bytes and wastes less than a page.
pub proof fn law_rounded(size: int)
    requires
        size >= 0,
    ensures
        rounded(size) % (HUGE_PAGE_SIZE as int) == 0,
        rounded(size) >= size,
        rounded(size) >= HUGE_PAGE_SIZE,
        size > 0 ==> rounded(size) < size + HUGE_PAGE_SIZE,
        rounded(rounded(size)) == rounded(size),
{
}

// ---------------------------------------------------------------------------
// HugePageRegion
// ---------------------------------------------------------------------------
/// A HugePages-backed memory region registered for one-sided RDMA.
#[derive(Debug, Clone, Copy, PartialEq, Eq)]
pub struct HugePageRegion {
    /// Address of the mapped region.
    ptr: u64,
    /// Size of the region (always a multiple of `HUGE_PAGE_SIZE`).
    size: usize,
    /// Local and remote key of the registration.
    keys: Option<(u32, u32)>,
}

/// A region as a value; the keys are the local and the remote one.
pub struct RegionView {
    pub addr: u64,
    pub size: usize,
    pub keys: Option<(u32, u32)>,
}

impl View for HugePageRegion {
    type V = RegionView;

    closed spec fn view(&self) -> RegionView {
        RegionView { addr: self.ptr, size: self.size, keys: self.keys }
    }
}

impl HugePageRegion {
    /// Virtual address of the region (for remote RDMA addressing).
    pub fn addr(&self) -> (r: u64)
        ensures
            r == self@.addr,
    {
        self.ptr
    }

    /// Size of the region in bytes.
    pub fn size(&self) -> (r: usize)
        ensures
            r == self@.size,
    {
        self.size
    }

    /// Remote access key (`rkey`) for RDMA operations from a remote QP.
    pub fn rkey(&self) -> (r: Option<u32>)
        ensures
            r == (match self@.keys {
                Some((_, rkey)) => Some(rkey),
                None => None,
            }),
    {
        match self.keys {
            Some((_, rkey)) => Some(rkey),
            None => None,
        }
    }

    /// Local access key (`lkey`) for local RDMA operations.
    pub fn lkey(&self) -> (r: Option<u32>)
        ensures
            r == (match self@.keys {
                Some((lkey, _)) => Some(lkey),
                None => None,
            }),
    {
        match self.keys {
            Some((lkey, _)) => Some(lkey),
            None => None,
        }
    }

    /// Begins the allocation of a region with the default RDMA access flags
    /// (local write + remote read/write/atomic).
    ///
    /// `size` is rounded up to the nearest 2MB boundary.
    pub fn allocate(size: usize) -> (r: RegionAllocation)
        requires
            size + HUGE_PAGE_SIZE - 1 <= usize::MAX,
        ensures
            r.size == size,
            r.access == DEFAULT_ACCESS,
            r.stage == Stage::MapPages,
            r.wf(),
    {
        Self::allocate_with_access(size, DEFAULT_ACCESS)
    }

    /// Begins the allocation of a region with custom RDMA access flags.
    pub fn allocate_with_access(size: usize, access: u32) -> (r: RegionAllocation)
        requires
            size + HUGE_PAGE_SIZE - 1 <= usize::MAX,
        ensures
            r.size == size,
            r.access == access,
            r.stage == Stage::MapPages,
            r.wf(),
    {
        RegionAllocation { size, access, stage: Stage::MapPages }
    }
}

// ---------------------------------------------------------------------------
// RegionAllocation
// ---------------------------------------------------------------------------
/// Where an allocation stands: which system call is under way.
#[derive(Debug, Clone, Copy, PartialEq, Eq, Structural)]
pub enum Stage {
    MapPages,
    Lock { addr: u64 },
    Register { addr: u64 },
}

/// A system call of an allocation.
#[derive(Debug, Clone, Copy, PartialEq, Eq, Structural)]
pub enum MemAction {
    /// Map so many bytes of HugePages.
    MapPages { len: usize },
    /// Lock the bytes in physical memory.
    Lock { addr: u64, len: usize },
    /// Register the bytes with the device.
    Register { addr: u64, len: usize, access: u32 },
}

/// What came of a system call. The text is the system's description of an error.
#[derive(Debug)]
pub enum MemEvent {
    Mapped(u64),
    Locked,
    /// The registration's local and remote key.
    Registered(u32, u32),
    SystemError(String),
    /// The registration failed.
    RegisterError(RdmaError),
}

/// A memory event as a value.
pub enum EventView {
    Mapped(u64),
    Locked,
    Registered(u32, u32),
    SystemError(Seq<char>),
    RegisterError(ErrorView),
}

impl View for MemEvent {
    type V = EventView;

    open spec fn view(&self) -> EventView {
        match *self {
            MemEvent::Mapped(addr) => EventView::Mapped(addr),
            MemEvent::Locked => EventView::Locked,
            MemEvent::Registered(lkey, rkey) => EventView::Registered(lkey, rkey),
            MemEvent::SystemError(s) => EventView::SystemError(s@),
            MemEvent::RegisterError(e) => EventView::RegisterError(e@),
        }
    }
}

/// What an allocation does next.
#[derive(Debug)]
pub enum MemStep {
    /// Perform the system call and hand back what came of it.
    Perform(MemAction),
    /// The region is ready.
    Ready(HugePageRegion),
    /// The allocation failed. The mapping to undo first, if there is one.
    Failed { unmap: Option<(u64, usize)>, error: RdmaError },
}

/// A memory step as a value.
pub enum MemStepView {
    Perform(MemAction),
    Ready(RegionView),
    Failed { unmap: Option<(u64, usize)>, error: ErrorView },
}

impl View for MemStep {
    type V = MemStepView;

    open spec fn view(&self) -> MemStepView {
        match *self {
            MemStep::Perform(a) => MemStepView::Perform(a),
            MemStep::Ready(r) => MemStepView::Ready(r@),
            MemStep::Failed { unmap, error } => MemStepView::Failed { unmap, error: error@ },
        }
    }
}

/// One allocation of a region.
#[derive(Debug)]
pub struct RegionAllocation {
    /// The requested size.
    pub size: usize,
    /// The access flags of the registration.
    pub access: u32,
    pub stage: Stage,
}

/// The message about a failed mapping.
pub open spec fn map_message(size: usize, os: Seq<char>) -> Seq<char> {
    "mmap failed for "@ + text::decimal(size as nat) + " bytes (rounded to "@ + text::decimal(
        rounded(size as int) as nat,
    ) + "): "@ + os
        + ". Check that HugePages are configured (nr_hugepages > 0) and the process has sufficient memlock limit."@
}

/// The message about a failed lock.
pub open spec fn lock_message(os: Seq<char>) -> Seq<char> {
    "mlock failed: "@ + os + ". Check memlock ulimit (ulimit -l)."@
}

/// The system call under way.
pub open spec fn mem_action(size: usize, access: u32, stage: Stage) -> MemAction {
    let len = rounded(size as int) as usize;
    match stage {
        Stage::MapPages => MemAction::MapPages { len },
        Stage::Lock { addr } => MemAction::Lock { addr, len },
        Stage::Register { addr } => MemAction::Register { addr, len, access },
    }
}

/// The event is one that the system call under way can end with.
pub open spec fn fits(stage: Stage, event: EventView) -> bool {
    match stage {
        Stage::MapPages => event is Mapped || event is SystemError,
        Stage::Lock { .. } => event is Locked || event is SystemError,
        Stage::Register { .. } => event is Registered || event is RegisterError,
    }
}

/// One step of an allocation: the next stage, and what to do. A region that
/// cannot be locked is unmapped; a region that cannot be registered is not.
pub open spec fn mem_step(size: usize, access: u32, stage: Stage, event: EventView) -> (
    Stage,
    MemStepView,
) {
    let len = rounded(size as int) as usize;
    match event {
        EventView::Mapped(addr) => {
            let next = Stage::Lock { addr };
            (next, MemStepView::Perform(mem_action(size, access, next)))
        },
        EventView::Locked => {
            let next = Stage::Register { addr: stage->Lock_addr };
            (next, MemStepView::Perform(mem_action(size, access, next)))
        },
        EventView::Registered(lkey, rkey) => (
            stage,
            MemStepView::Ready(
                RegionView { addr: stage->Register_addr, size: len, keys: Some((lkey, rkey)) },
            ),
        ),
        EventView::SystemError(os) => (
            stage,
            match stage {
                Stage::Lock { addr } => MemStepView::Failed {
                    unmap: Some((addr, len)),
                    error: ErrorView::Internal(lock_message(os)),
                },
                _ => MemStepView::Failed {
                    unmap: None,
                    error: ErrorView::Internal(map_message(size, os)),
                },
            },
        ),
        EventView::RegisterError(e) => (stage, MemStepView::Failed { unmap: None, error: e }),
    }
}

impl RegionAllocation {
    /// The rounded size fits in a `usize`.
    pub open spec fn wf(&self) -> bool {
        self.size + HUGE_PAGE_SIZE - 1 <= usize::MAX
    }

    /// The system call under way.
    pub fn action(&self) -> (a: MemAction)
        requires
            self.wf(),
        ensures
            a == mem_action(self.size, self.access, self.stage),
    {
        let len: usize = round_up(self.size);
        match self.stage {
            Stage::MapPages => MemAction::MapPages { len },
            Stage::Lock { addr } => MemAction::Lock { addr, len },
            Stage::Register { addr } => MemAction::Register { addr, len, access: self.access },
        }
    }

    /// Goes on with what came of the system call.
    pub fn step(&mut self, event: MemEvent) -> (r: MemStep)
        requires
            old(self).wf(),
            fits(old(self).stage, event@),
        ensures
            (final(self).stage, r@) == mem_step(
                old(self).size,
                old(self).access,
                old(self).stage,
                event@,
            ),
            final(self).size == old(self).size,
            final(self).access == old(self).access,
    {
        let len: usize = round_up(self.size);
        match event {
            MemEvent::Mapped(addr) => {
                self.stage = Stage::Lock { addr };
                MemStep::Perform(self.action())
            },
            MemEvent::Locked => {
                let addr: u64 = match self.stage {
                    Stage::Lock { addr } => addr,
                    _ => 0,
                };
                self.stage = Stage::Register { addr };
                MemStep::Perform(self.action())
            },
            MemEvent::Registered(lkey, rkey) => {
                let addr: u64 = match self.stage {
                    Stage::Register { addr } => addr,
                    _ => 0,
                };
                MemStep::Ready(HugePageRegion { ptr: addr, size: len, keys: Some((lkey, rkey)) })
            },
            MemEvent::SystemError(os) => match self.stage {
                Stage::Lock { addr } => {
                    let mut msg: String = "mlock failed: ".to_owned();
                    msg.append(os.as_str());
                    msg.append(". Check memlock ulimit (ulimit -l).");
                    MemStep::Failed { unmap: Some((addr, len)), error: RdmaError::Internal(msg) }
                },
                _ => {
                    let mut msg: String = "mmap failed for ".to_owned();
                    text::append_decimal(&mut msg, self.size as u64);
                    msg.append(" bytes (rounded to ");
                    text::append_decimal(&mut msg, len as u64);
                    msg.append("): ");
                    msg.append(os.as_str());
                    msg.append(
                        ". Check that HugePages are configured (nr_hugepages > 0) and the process has sufficient memlock limit.",
                    );
                    MemStep::Failed { unmap: None, error: RdmaError::Internal(msg) }
                },
            },
            MemEvent::RegisterError(e) => MemStep::Failed { unmap: None, error: e },
        }
    }
}

// ---------------------------------------------------------------------------
// Laws
// ---------------------------------------------------------------------------
/// An allocation whose system calls all succeed ends, after three of them, with a
/// region at the mapped address, of the rounded size, with the keys of the
/// registration.
pub proof fn law_allocation(size: usize, access: u32, addr: u64, lkey: u32, rkey: u32)
    ensures
        ({
            let (s1, a1) = mem_step(size, access, Stage::MapPages, EventView::Mapped(addr));
            let (s2, a2) = mem_step(size, access, s1, EventView::Locked);
            let (s3, a3) = mem_step(size, access, s2, EventView::Registered(lkey, rkey));
            let len = rounded(size as int) as usize;
            &&& a1 == MemStepView::Perform(MemAction::Lock { addr, len })
            &&& a2 == MemStepView::Perform(MemAction::Register { addr, len, access })
            &&& a3 == MemStepView::Ready(
                RegionView { addr, size: len, keys: Some((lkey, rkey)) },
            )
        }),
{
}

/// A failed lock gives the mapping back.
pub proof fn law_failed_lock_unmaps(size: usize, access: u32, addr: u64, os: Seq<char>)
    ensures
        mem_step(size, access, Stage::Lock { addr }, EventView::SystemError(os)).1 matches
            MemStepView::Failed { unmap: Some(u), .. } && u == (
            addr,
            rounded(size as int) as usize,
        ),
{
}

/// An allocation begins with a mapping of whole pages of two megabytes.
pub proof fn law_mapping_comes_first(size: usize, access: u32)
    requires
        size + 2_097_151 <= usize::MAX,
    ensures
        mem_action(size, access, Stage::MapPages) matches MemAction::MapPages { len } && len
            % 2_097_152 == 0 && size <= len && 0 < len && (len < size + 2_097_152 || size == 0 && len
            == 2_097_152),
{
}

/// An allocation fails with the error of the call that failed: of the mapping, with
/// both sizes, of the lock, or of the registration. Only a failed lock gives a mapping
/// back.
pub proof fn law_allocation_failures(
    size: usize,
    access: u32,
    addr: u64,
    os: Seq<char>,
    e: ErrorView,
)
    ensures
        mem_step(size, access, Stage::MapPages, EventView::SystemError(os)).1
            == (MemStepView::Failed {
            unmap: None,
            error: ErrorView::Internal(
                "mmap failed for "@ + text::decimal(size as nat) + " bytes (rounded to "@
                    + text::decimal(rounded(size as int) as nat) + "): "@ + os
                    + ". Check that HugePages are configured (nr_hugepages > 0) and the process has sufficient memlock limit."@,
            ),
        }),
        mem_step(size, access, Stage::Lock { addr }, EventView::SystemError(os)).1
            == (MemStepView::Failed {
            unmap: Some((addr, rounded(size as int) as usize)),
            error: ErrorView::Internal(
                "mlock failed: "@ + os + ". Check memlock ulimit (ulimit -l)."@,
            ),
        }),
        mem_step(size, access, Stage::Register { addr }, EventView::RegisterError(e)).1
            == (MemStepView::Failed { unmap: None, error: e }),
{
}

} // verus!
