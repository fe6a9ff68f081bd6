//! Completion queue: what polling it gives.

use vstd::prelude::*;
use vstd::string::*;

use crate::error::{ErrorView, RdmaError};
use crate::text;

verus! {

/// Completion status of a work request, in the numbering of the verbs.
#[derive(Debug, Clone, Copy, PartialEq, Eq, Structural)]
pub enum WcStatus {
    Success,
    LocLenErr,
    LocQpOpErr,
    LocEecOpErr,
    LocProtErr,
    WrFlushErr,
    MwBindErr,
    BadRespErr,
    LocAccessErr,
    RemInvReqErr,
    RemAccessErr,
    RemOpErr,
    RetryExcErr,
    RnrRetryExcErr,
    LocRddViolErr,
    RemInvRdReqErr,
    RemAbortErr,
    InvEecnErr,
    InvEecStateErr,
    FatalErr,
    RespTimeoutErr,
    GeneralErr,
    TmErr,
    TmRndvIncomplete,
}

/// The name of a status in the verbs.
pub open spec fn status_name(s: WcStatus) -> Seq<char> {
    match s {
        WcStatus::Success => "IBV_WC_SUCCESS"@,
        WcStatus::LocLenErr => "IBV_WC_LOC_LEN_ERR"@,
        WcStatus::LocQpOpErr => "IBV_WC_LOC_QP_OP_ERR"@,
        WcStatus::LocEecOpErr => "IBV_WC_LOC_EEC_OP_ERR"@,
        WcStatus::LocProtErr => "IBV_WC_LOC_PROT_ERR"@,
        WcStatus::WrFlushErr => "IBV_WC_WR_FLUSH_ERR"@,
        WcStatus::MwBindErr => "IBV_WC_MW_BIND_ERR"@,
        WcStatus::BadRespErr => "IBV_WC_BAD_RESP_ERR"@,
        WcStatus::LocAccessErr => "IBV_WC_LOC_ACCESS_ERR"@,
        WcStatus::RemInvReqErr => "IBV_WC_REM_INV_REQ_ERR"@,
        WcStatus::RemAccessErr => "IBV_WC_REM_ACCESS_ERR"@,
        WcStatus::RemOpErr => "IBV_WC_REM_OP_ERR"@,
        WcStatus::RetryExcErr => "IBV_WC_RETRY_EXC_ERR"@,
        WcStatus::RnrRetryExcErr => "IBV_WC_RNR_RETRY_EXC_ERR"@,
        WcStatus::LocRddViolErr => "IBV_WC_LOC_RDD_VIOL_ERR"@,
        WcStatus::RemInvRdReqErr => "IBV_WC_REM_INV_RD_REQ_ERR"@,
        WcStatus::RemAbortErr => "IBV_WC_REM_ABORT_ERR"@,
        WcStatus::InvEecnErr => "IBV_WC_INV_EECN_ERR"@,
        WcStatus::InvEecStateErr => "IBV_WC_INV_EEC_STATE_ERR"@,
        WcStatus::FatalErr => "IBV_WC_FATAL_ERR"@,
        WcStatus::RespTimeoutErr => "IBV_WC_RESP_TIMEOUT_ERR"@,
        WcStatus::GeneralErr => "IBV_WC_GENERAL_ERR"@,
        WcStatus::TmErr => "IBV_WC_TM_ERR"@,
        WcStatus::TmRndvIncomplete => "IBV_WC_TM_RNDV_INCOMPLETE"@,
    }
}

impl WcStatus {
    /// The name of the status in the verbs.
    pub fn name(&self) -> (r: &'static str)
        ensures
            r@ == status_name(*self),
    {
        match self {
            WcStatus::Success => "IBV_WC_SUCCESS",
            WcStatus::LocLenErr => "IBV_WC_LOC_LEN_ERR",
            WcStatus::LocQpOpErr => "IBV_WC_LOC_QP_OP_ERR",
            WcStatus::LocEecOpErr => "IBV_WC_LOC_EEC_OP_ERR",
            WcStatus::LocProtErr => "IBV_WC_LOC_PROT_ERR",
            WcStatus::WrFlushErr => "IBV_WC_WR_FLUSH_ERR",
            WcStatus::MwBindErr => "IBV_WC_MW_BIND_ERR",
            WcStatus::BadRespErr => "IBV_WC_BAD_RESP_ERR",
            WcStatus::LocAccessErr => "IBV_WC_LOC_ACCESS_ERR",
            WcStatus::RemInvReqErr => "IBV_WC_REM_INV_REQ_ERR",
            WcStatus::RemAccessErr => "IBV_WC_REM_ACCESS_ERR",
            WcStatus::RemOpErr => "IBV_WC_REM_OP_ERR",
            WcStatus::RetryExcErr => "IBV_WC_RETRY_EXC_ERR",
            WcStatus::RnrRetryExcErr => "IBV_WC_RNR_RETRY_EXC_ERR",
            WcStatus::LocRddViolErr => "IBV_WC_LOC_RDD_VIOL_ERR",
            WcStatus::RemInvRdReqErr => "IBV_WC_REM_INV_RD_REQ_ERR",
            WcStatus::RemAbortErr => "IBV_WC_REM_ABORT_ERR",
            WcStatus::InvEecnErr => "IBV_WC_INV_EECN_ERR",
            WcStatus::InvEecStateErr => "IBV_WC_INV_EEC_STATE_ERR",
            WcStatus::FatalErr => "IBV_WC_FATAL_ERR",
            WcStatus::RespTimeoutErr => "IBV_WC_RESP_TIMEOUT_ERR",
            WcStatus::GeneralErr => "IBV_WC_GENERAL_ERR",
            WcStatus::TmErr => "IBV_WC_TM_ERR",
            WcStatus::TmRndvIncomplete => "IBV_WC_TM_RNDV_INCOMPLETE",
        }
    }
}

/// A single work completion entry.
#[derive(Debug, Clone, Copy, PartialEq, Eq, Structural)]
pub struct WorkCompletion {
    /// User-assigned work request ID (matches `wr_id` on the posted WR).
    pub wr_id: u64,
    /// Completion status.
    pub status: WcStatus,
    /// The operation that completed.
    pub opcode: u32,
    /// Number of bytes transferred.
    pub byte_len: u32,
    /// Vendor-specific error code (meaningful only on error).
    pub vendor_err: u32,
    /// Immediate data (in network byte order).
    pub imm_data: u32,
    /// The QP number that generated this completion.
    pub qp_num: u32,
    /// Source QP number (for UD QPs).
    pub src_qp: u32,
}

impl WorkCompletion {
    /// Returns `true` if the operation completed successfully.
    pub fn is_success(&self) -> (b: bool)
        ensures
            b == (self.status == WcStatus::Success),
    {
        matches!(self.status, WcStatus::Success)
    }
}

// ---------------------------------------------------------------------------
// CompletionQueue
// ---------------------------------------------------------------------------
/// The outcome of a poll for `num_entries` completions, from its return code and
/// the completions that came. Nothing is polled for where `num_entries` is zero.
pub open spec fn poll_outcome(num_entries: u32, ret: i32, polled: Seq<WorkCompletion>) -> Result<
    Seq<WorkCompletion>,
    ErrorView,
> {
    if num_entries == 0 {
        Ok(Seq::empty())
    } else if ret < 0 {
        Err(
            ErrorView::HardwareError(
                "ibv_poll_cq failed with return code "@ + text::signed_decimal(ret as int),
            ),
        )
    } else {
        Ok(polled)
    }
}

/// RDMA Completion Queue.
#[derive(Debug, Clone, Copy, PartialEq, Eq, Structural)]
pub struct CompletionQueue {
    handle: u64,
}

impl CompletionQueue {
    pub closed spec fn spec_handle(&self) -> u64 {
        self.handle
    }

    /// A completion queue with the handle that its creation returned; 0 stands for
    /// none.
    pub fn create(handle: u64) -> (r: Result<Self, RdmaError>)
        ensures
            match r {
                Ok(cq) => handle != 0 && cq.spec_handle() == handle,
                Err(e) => handle == 0 && e@ == ErrorView::HardwareError(
                    "ibv_create_cq returned NULL"@,
                ),
            },
    {
        if handle == 0 {
            return Err(RdmaError::HardwareError("ibv_create_cq returned NULL".to_owned()));
        }
        Ok(CompletionQueue { handle })
    }

    /// Get the handle for use in calls of the verbs.
    pub fn as_ptr(&self) -> (h: u64)
        ensures
            h == self.spec_handle(),
    {
        self.handle
    }

    /// Poll for work completions: `ret` is the return code and `polled` are the
    /// completions that came.
    ///
    /// An empty vector means no completions are available (not an error).
    pub fn poll(&self, num_entries: u32, ret: i32, polled: Vec<WorkCompletion>) -> (r: Result<
        Vec<WorkCompletion>,
        RdmaError,
    >)
        ensures
            match r {
                Ok(wcs) => poll_outcome(num_entries, ret, polled@) == Ok::<_, ErrorView>(wcs@),
                Err(e) => poll_outcome(num_entries, ret, polled@) == Err::<
                    Seq<WorkCompletion>,
                    _,
                >(e@),
            },
    {
        if num_entries == 0 {
            return Ok(Vec::new());
        }
        if ret < 0 {
            return Err(
                RdmaError::HardwareError(
                    text::with_code("ibv_poll_cq failed with return code ", ret),
                ),
            );
        }
        Ok(polled)
    }

    /// Convenience wrapper around [`poll`](Self::poll) for a single completion.
    ///
    /// Returns `None` when no completions are available (not an error).
    pub fn poll_single(&self, ret: i32, polled: Vec<WorkCompletion>) -> (r: Result<
        Option<WorkCompletion>,
        RdmaError,
    >)
        ensures
            match (r, poll_outcome(1, ret, polled@)) {
                (Ok(None), Ok(wcs)) => wcs.len() == 0,
                (Ok(Some(wc)), Ok(wcs)) => wcs.len() > 0 && wc == wcs[0],
                (Err(e), Err(expected)) => e@ == expected,
                _ => false,
            },
    {
        match self.poll(1, ret, polled) {
            Ok(wcs) => if wcs.len() == 0 {
                Ok(None)
            } else {
                Ok(Some(wcs[0]))
            },
            Err(e) => Err(e),
        }
    }

    /// Request completion notification on this queue: `ret` is the return code.
    pub fn request_notification(&self, ret: i32) -> (r: Result<(), RdmaError>)
        ensures
            match r {
                Ok(_) => ret == 0,
                Err(e) => ret != 0 && e@ == ErrorView::HardwareError(
                    "ibv_req_notify_cq failed with return code "@ + text::signed_decimal(ret as int),
                ),
            },
    {
        if ret != 0 {
            return Err(
                RdmaError::HardwareError(
                    text::with_code("ibv_req_notify_cq failed with return code ", ret),
                ),
            );
        }
        Ok(())
    }
}

// ---------------------------------------------------------------------------
// CqEventChannel
// ---------------------------------------------------------------------------
/// Completion event channel for event-driven polling.
///
/// Its file descriptor becomes readable when completions are available.
#[derive(Debug, Clone, Copy, PartialEq, Eq, Structural)]
pub struct CqEventChannel {
    handle: u64,
    fd: i32,
}

impl CqEventChannel {
    pub closed spec fn spec_handle(&self) -> u64 {
        self.handle
    }

    pub closed spec fn spec_fd(&self) -> i32 {
        self.fd
    }

    /// A channel with the handle and the descriptor that its creation returned; a
    /// handle of 0 stands for none.
    pub fn create(handle: u64, fd: i32) -> (r: Result<Self, RdmaError>)
        ensures
            match r {
                Ok(c) => handle != 0 && c.spec_handle() == handle && c.spec_fd() == fd,
                Err(e) => handle == 0 && e@ == ErrorView::HardwareError(
                    "ibv_create_comp_channel returned NULL"@,
                ),
            },
    {
        if handle == 0 {
            return Err(
                RdmaError::HardwareError("ibv_create_comp_channel returned NULL".to_owned()),
            );
        }
        Ok(CqEventChannel { handle, fd })
    }

    /// Get the handle for use in calls of the verbs.
    pub fn as_ptr(&self) -> (h: u64)
        ensures
            h == self.spec_handle(),
    {
        self.handle
    }

    /// Get the file descriptor of the channel.
    pub fn fd(&self) -> (fd: i32)
        ensures
            fd == self.spec_fd(),
    {
        self.fd
    }

    /// The retrieval of a completion event: `ret` is the return code.
    pub fn get_event(&self, ret: i32) -> (r: Result<(), RdmaError>)
        ensures
            match r {
                Ok(_) => ret == 0,
                Err(e) => ret != 0 && e@ == ErrorView::HardwareError(
                    "ibv_get_cq_event failed with return code "@ + text::signed_decimal(ret as int),
                ),
            },
    {
        if ret != 0 {
            return Err(
                RdmaError::HardwareError(
                    text::with_code("ibv_get_cq_event failed with return code ", ret),
                ),
            );
        }
        Ok(())
    }
}

/// A poll gives the completions that came, fails when its return code is negative, and
/// is empty when nothing was asked for.
pub proof fn law_poll(num_entries: u32, ret: i32, polled: Seq<WorkCompletion>)
    ensures
        num_entries > 0 && ret >= 0 ==> poll_outcome(num_entries, ret, polled) == Ok::<
            _,
            ErrorView,
        >(polled),
        num_entries > 0 && ret < 0 ==> poll_outcome(num_entries, ret, polled) == Err::<
            Seq<WorkCompletion>,
            _,
        >(
            ErrorView::HardwareError(
                "ibv_poll_cq failed with return code "@ + text::signed_decimal(ret as int),
            ),
        ),
        num_entries == 0 ==> poll_outcome(num_entries, ret, polled) == Ok::<_, ErrorView>(
            Seq::<WorkCompletion>::empty(),
        ),
{
}

} // verus!
