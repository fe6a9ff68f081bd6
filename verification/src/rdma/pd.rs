//! Protection domains.

use vstd::prelude::*;
use vstd::string::*;

use crate::error::{ErrorView, RdmaError};

verus! {

/// RDMA protection domain: memory regions and queue pairs of one domain work with
/// each other.
#[derive(Debug, Clone, Copy, PartialEq, Eq, Structural)]
pub struct ProtectionDomain {
    handle: u64,
}

impl ProtectionDomain {
    pub closed spec fn spec_handle(&self) -> u64 {
        self.handle
    }

    /// A protection domain with the handle that its allocation returned; 0 stands
    /// for none.
    pub fn allocate(handle: u64) -> (r: Result<Self, RdmaError>)
        ensures
            match r {
                Ok(pd) => handle != 0 && pd.spec_handle() == handle,
                Err(e) => handle == 0 && e@ == ErrorView::HardwareError(
                    "ibv_alloc_pd returned NULL"@,
                ),
            },
    {
        if handle == 0 {
            return Err(RdmaError::HardwareError("ibv_alloc_pd returned NULL".to_owned()));
        }
        Ok(ProtectionDomain { handle })
    }

    /// Get the handle for use in calls of the verbs.
    pub fn as_ptr(&self) -> (h: u64)
        ensures
            h == self.spec_handle(),
    {
        self.handle
    }
}

} // verus!
