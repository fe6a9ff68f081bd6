//! Memory regions that are registered for RDMA.

use vstd::prelude::*;

verus! {

/// RDMA access flags.
///
/// Combines the access bits of the verbs for memory region registration.
#[derive(Debug, Clone, Copy, PartialEq, Eq, Structural)]
pub struct AccessFlags(pub u32);

impl AccessFlags {
    pub const LOCAL_WRITE: u32 = 1;

    pub const REMOTE_WRITE: u32 = 2;

    pub const REMOTE_READ: u32 = 4;

    pub const REMOTE_ATOMIC: u32 = 8;

    pub const MW_BIND: u32 = 16;

    pub const RELAXED_ORDERING: u32 = 0x10_0000;

    pub const NONE: u32 = 0;
}

impl From<u32> for AccessFlags {
    fn from(flags: u32) -> (r: Self) {
        AccessFlags(flags)
    }
}

impl vstd::std_specs::convert::FromSpecImpl<u32> for AccessFlags {
    open spec fn obeys_from_spec() -> bool {
        true
    }

    open spec fn from_spec(flags: u32) -> AccessFlags {
        AccessFlags(flags)
    }
}

/// Default access: local write and remote read, write and atomic.
pub const DEFAULT_ACCESS: u32 = 15;

/// The default access is the four rights together.
pub proof fn law_default_access()
    ensures
        DEFAULT_ACCESS == AccessFlags::LOCAL_WRITE | AccessFlags::REMOTE_WRITE
            | AccessFlags::REMOTE_READ | AccessFlags::REMOTE_ATOMIC,
{
    assert(15u32 == 1u32 | 2u32 | 4u32 | 8u32) by (bit_vector);
}

/// A registered memory region, as the data path sees it.
///
/// The `lkey` and `rkey` are those that the registration returned.
#[derive(Debug, Clone, Copy, PartialEq, Eq, Structural)]
pub struct MemoryRegion {
    addr: u64,
    lkey: u32,
    rkey: u32,
    /// Size of the registered region, in bytes.
    size: usize,
}

impl MemoryRegion {
    pub closed spec fn spec_addr(&self) -> u64 {
        self.addr
    }

    pub closed spec fn spec_lkey(&self) -> u32 {
        self.lkey
    }

    pub closed spec fn spec_rkey(&self) -> u32 {
        self.rkey
    }

    pub closed spec fn spec_size(&self) -> usize {
        self.size
    }

    /// A region of `length` bytes at `addr` that was registered under these keys.
    pub fn registered(addr: u64, length: usize, lkey: u32, rkey: u32) -> (r: Self)
        ensures
            r.spec_addr() == addr,
            r.spec_lkey() == lkey,
            r.spec_rkey() == rkey,
            r.spec_size() == length,
    {
        MemoryRegion { addr, lkey, rkey, size: length }
    }

    /// Get the local access key (lkey).
    pub fn lkey(&self) -> (r: u32)
        ensures
            r == self.spec_lkey(),
    {
        self.lkey
    }

    /// Get the remote access key (rkey).
    pub fn rkey(&self) -> (r: u32)
        ensures
            r == self.spec_rkey(),
    {
        self.rkey
    }

    /// Get the virtual address of the registered buffer (for remote access).
    pub fn addr(&self) -> (r: u64)
        ensures
            r == self.spec_addr(),
    {
        self.addr
    }

    /// Get the size of the registered memory region in bytes.
    pub fn size(&self) -> (r: usize)
        ensures
            r == self.spec_size(),
    {
        self.size
    }

    /// Get the length of the registered buffer in bytes.
    pub fn len(&self) -> (r: usize)
        ensures
            r == self.spec_size(),
    {
        self.size
    }
}

} // verus!
