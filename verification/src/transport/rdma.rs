//! Operations of the RDMA transport: the work request of a remote operation, and
//! what its completion means.

use vstd::prelude::*;
use vstd::string::*;

use crate::error::{ErrorView, RdmaError};
use crate::rdma::cq::{WcStatus, WorkCompletion};
use crate::rdma::qp;
use crate::rdma::qp::{SendView, SendWorkRequest, SendWrOpcode, WrTarget};
use crate::runtime::ops;
use crate::transport::{OpView, RemoteOp};

verus! {

/// The work request of a remote operation with the local buffer at `local_addr`:
/// the bytes that are read or written, or the eight bytes into which the device puts
/// the value that a compare-and-swap found.
pub open spec fn request_of(wr_id: u64, op: OpView, local_addr: u64, lkey: u32) -> SendView {
    match op {
        OpView::Read { addr, rkey, len } => ops::one_sided(
            wr_id,
            SendWrOpcode::RdmaRead,
            local_addr,
            len as nat,
            lkey,
            addr,
            rkey,
            None,
            None,
        ),
        OpView::Write { addr, rkey, bytes } => ops::one_sided(
            wr_id,
            SendWrOpcode::RdmaWrite,
            local_addr,
            bytes.len(),
            lkey,
            addr,
            rkey,
            None,
            None,
        ),
        OpView::Cas { addr, rkey, compare, swap } => ops::one_sided(
            wr_id,
            SendWrOpcode::RdmaCompareSwap,
            local_addr,
            8,
            lkey,
            addr,
            rkey,
            Some(compare),
            Some(swap),
        ),
    }
}

/// The work request of a remote operation.
pub fn work_request(wr_id: u64, op: &RemoteOp, local_addr: u64, lkey: u32) -> (r: SendWorkRequest)
    requires
        op@ matches OpView::Read { len, .. } ==> len <= usize::MAX,
    ensures
        r@ == request_of(wr_id, op@, local_addr, lkey),
{
    match op {
        RemoteOp::Read { addr, rkey, len } => ops::one_sided_request(
            wr_id,
            SendWrOpcode::RdmaRead,
            local_addr,
            *len as usize,
            lkey,
            *addr,
            *rkey,
            None,
            None,
        ),
        RemoteOp::Write { addr, rkey, bytes } => ops::one_sided_request(
            wr_id,
            SendWrOpcode::RdmaWrite,
            local_addr,
            bytes.len(),
            lkey,
            *addr,
            *rkey,
            None,
            None,
        ),
        RemoteOp::Cas { addr, rkey, compare, swap } => ops::one_sided_request(
            wr_id,
            SendWrOpcode::RdmaCompareSwap,
            local_addr,
            8,
            lkey,
            *addr,
            *rkey,
            Some(*compare),
            Some(*swap),
        ),
    }
}

/// The completion that was polled says that the operation succeeded.
pub open spec fn completed(polled: Seq<WorkCompletion>) -> bool {
    polled.len() > 0 && polled[0].status == WcStatus::Success
}

/// Whether the completion that was polled says that the operation succeeded.
fn is_completed(polled: &[WorkCompletion]) -> (b: bool)
    ensures
        b == completed(polled@),
{
    polled.len() > 0 && polled[0].is_success()
}

/// The result of a READ from what was polled after posting it.
pub fn read_outcome(polled: &[WorkCompletion]) -> (r: Result<(), RdmaError>)
    ensures
        match r {
            Ok(_) => completed(polled@),
            Err(e) => !completed(polled@) && e@ == ErrorView::Internal("READ completion failed"@),
        },
{
    if !is_completed(polled) {
        return Err(RdmaError::Internal("READ completion failed".to_owned()));
    }
    Ok(())
}

/// The result of a WRITE from what was polled after posting it.
pub fn write_outcome(polled: &[WorkCompletion]) -> (r: Result<(), RdmaError>)
    ensures
        match r {
            Ok(_) => completed(polled@),
            Err(e) => !completed(polled@) && e@ == ErrorView::Internal("WRITE completion failed"@),
        },
{
    if !is_completed(polled) {
        return Err(RdmaError::Internal("WRITE completion failed".to_owned()));
    }
    Ok(())
}

/// The result of a CAS from what was polled after posting it and the original value
/// that the device wrote to the local buffer: whether the value was swapped, that is
/// `compare` matched the current value.
pub fn cas_outcome(polled: &[WorkCompletion], compare: u64, original: u64) -> (b: bool)
    ensures
        b == (completed(polled@) && original == compare),
{
    is_completed(polled) && original == compare
}

/// What the device is asked for is the remote operation: its kind, the remote memory
/// with its key, the two values of a compare-and-swap, and one local buffer of the
/// operation's length.
pub proof fn law_device_is_asked_for_the_operation(
    wr_id: u64,
    op: OpView,
    local_addr: u64,
    lkey: u32,
    asks: bool,
)
    ensures
        ({
            let p = qp::posted(request_of(wr_id, op, local_addr, lkey), asks);
            &&& p.wr_id == wr_id
            &&& p.send_flags == (if asks {
                2u32
            } else {
                0u32
            })
            &&& p.sge.len() == 1
            &&& p.sge[0].addr == local_addr
            &&& p.sge[0].lkey == lkey
            &&& match op {
                OpView::Read { addr, rkey, len } => {
                    &&& p.opcode == 4
                    &&& p.target == (WrTarget::Rdma { remote_addr: addr, rkey })
                    &&& len < 0x1_0000_0000 ==> p.sge[0].length == len
                },
                OpView::Write { addr, rkey, bytes } => {
                    &&& p.opcode == 0
                    &&& p.target == (WrTarget::Rdma { remote_addr: addr, rkey })
                    &&& bytes.len() < 0x1_0000_0000 ==> p.sge[0].length == bytes.len()
                },
                OpView::Cas { addr, rkey, compare, swap } => {
                    &&& p.opcode == 5
                    &&& p.target == (WrTarget::Atomic {
                        remote_addr: addr,
                        compare_add: compare,
                        swap,
                        rkey,
                    })
                    &&& p.sge[0].length == 8
                },
            }
        }),
{
    assert(0u32 | 2u32 == 2u32 && 0u32 & !2u32 == 0u32) by (bit_vector);
}

/// Nothing polled means that the operation did not succeed; otherwise the first
/// completion decides, whatever follows it.
pub proof fn law_first_completion_decides(wc: WorkCompletion, rest: Seq<WorkCompletion>)
    ensures
        !completed(Seq::<WorkCompletion>::empty()),
        completed(seq![wc] + rest) <==> wc.status == WcStatus::Success,
{
}

} // verus!
