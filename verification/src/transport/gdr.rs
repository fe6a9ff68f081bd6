//! GPU memory for GPUDirect RDMA.
//!
//! Without CUDA there is no GPU memory to be had; what remains is the checks on
//! sizes.

use vstd::prelude::*;
use vstd::string::*;

verus! {

/// A GPU memory buffer that can be registered as an RDMA MR.
#[derive(Debug)]
pub struct GpuBuffer {
    ptr: u64,
    size: usize,
}

impl GpuBuffer {
    pub closed spec fn spec_ptr(&self) -> u64 {
        self.ptr
    }

    pub closed spec fn spec_size(&self) -> usize {
        self.size
    }

    /// Always an error: there is no CUDA.
    pub fn allocate(size: usize) -> (r: Result<Self, String>)
        ensures
            r matches Err(msg) && msg@ == (if size == 0 {
                "GpuBuffer size must be > 0"@
            } else {
                "CUDA not available — enable the 'gdr' feature"@
            }),
    {
        if size == 0 {
            return Err("GpuBuffer size must be > 0".to_owned());
        }
        Err("CUDA not available — enable the 'gdr' feature".to_owned())
    }

    /// The device address (for MR registration).
    pub fn as_ptr(&self) -> (r: u64)
        ensures
            r == self.spec_ptr(),
    {
        self.ptr
    }

    /// Get the size in bytes.
    pub fn size(&self) -> (r: usize)
        ensures
            r == self.spec_size(),
    {
        self.size
    }

    /// Whether a source of `len` bytes can be copied into the buffer.
    pub fn copy_from_host(&self, len: usize) -> (r: Result<(), String>)
        ensures
            match r {
                Ok(_) => len <= self.spec_size(),
                Err(msg) => len > self.spec_size() && msg@ == "source larger than GpuBuffer"@,
            },
    {
        if len > self.size {
            return Err("source larger than GpuBuffer".to_owned());
        }
        Ok(())
    }

    /// Whether the buffer can be copied to a destination of `len` bytes.
    pub fn copy_to_host(&self, len: usize) -> (r: Result<(), String>)
        ensures
            match r {
                Ok(_) => len >= self.spec_size(),
                Err(msg) => len < self.spec_size() && msg@
                    == "destination too small for GpuBuffer"@,
            },
    {
        if len < self.size {
            return Err("destination too small for GpuBuffer".to_owned());
        }
        Ok(())
    }
}

} // verus!
