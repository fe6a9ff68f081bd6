//! Async RDMA operation primitives.
//!
//! [`RdmaRuntime`] numbers the work requests of one-sided operations, registers
//! who waits for their completions, and makes results of the completions.
//!
//! # Usage
//!
//! 1. `rdma_read`, `rdma_write` or `rdma_cas` gives the work request to post; its
//!    `wr_id` is registered as waiting before it is posted.
//! 2. What posting it came to is handed to [`RdmaRuntime::posted`]: if posting
//!    failed, nobody waits for it any more.
//! 3. The poller dispatches the completion, and what is delivered is the
//!    result of the operation.

use vstd::prelude::*;
use vstd::string::*;

use crate::error::{ErrorView, RdmaError};
use crate::rdma::cq::{WcStatus, WorkCompletion};
use crate::rdma::qp::{ScatterGatherEntry, SendView, SendWorkRequest, SendWrOpcode};
use crate::runtime::poller::PendingMap;
use crate::text;

verus! {

/// A one-sided work request over one local buffer. Its length is cut to 32 bits.
pub open spec fn one_sided(
    wr_id: u64,
    opcode: SendWrOpcode,
    local_addr: u64,
    len: nat,
    lkey: u32,
    remote_addr: u64,
    remote_rkey: u32,
    compare_add: Option<u64>,
    swap: Option<u64>,
) -> SendView {
    SendView {
        wr_id,
        opcode,
        send_flags: 0,
        sge: seq![
            ScatterGatherEntry { addr: local_addr, length: (len % 0x1_0000_0000) as u32, lkey },
        ],
        remote_addr: Some(remote_addr),
        remote_rkey: Some(remote_rkey),
        compare_add,
        swap,
    }
}

/// A one-sided work request over one local buffer.
pub(crate) fn one_sided_request(
    wr_id: u64,
    opcode: SendWrOpcode,
    local_addr: u64,
    len: usize,
    lkey: u32,
    remote_addr: u64,
    remote_rkey: u32,
    compare_add: Option<u64>,
    swap: Option<u64>,
) -> (r: SendWorkRequest)
    ensures
        r@ == one_sided(
            wr_id,
            opcode,
            local_addr,
            len as nat,
            lkey,
            remote_addr,
            remote_rkey,
            compare_add,
            swap,
        ),
{
    let wide: u64 = len as u64;
    let entry = ScatterGatherEntry {
        addr: local_addr,
        length: (wide % 0x1_0000_0000) as u32,
        lkey,
    };
    let sge: Vec<ScatterGatherEntry> = vec![entry];
    let r = SendWorkRequest {
        wr_id,
        opcode,
        send_flags: 0,
        sge,
        remote_addr: Some(remote_addr),
        remote_rkey: Some(remote_rkey),
        compare_add,
        swap,
    };
    assert(r@ =~= one_sided(
        wr_id,
        opcode,
        local_addr,
        len as nat,
        lkey,
        remote_addr,
        remote_rkey,
        compare_add,
        swap,
    ));
    r
}

/// Monotonically increasing work request ID counter.
#[derive(Debug)]
pub struct WrIds {
    next: u64,
}

impl WrIds {
    pub closed spec fn next_id(&self) -> u64 {
        self.next
    }

    /// The first work request has id 1.
    pub fn new() -> (r: Self)
        ensures
            r.next_id() == 1,
    {
        WrIds { next: 1 }
    }

    /// Allocate the next `wr_id`. Ids wrap around.
    pub fn next_wr_id(&mut self) -> (id: u64)
        ensures
            id == old(self).next_id(),
            final(self).next_id() == (id + 1) % 0x1_0000_0000_0000_0000,
    {
        let id: u64 = self.next;
        self.next = id.wrapping_add(1);
        id
    }
}

/// The runtime as a value: the next `wr_id`, and the operations that wait.
pub struct RuntimeView {
    pub next: u64,
    pub waiting: Set<u64>,
}

/// The runtime after an operation began.
pub open spec fn begun(v: RuntimeView) -> RuntimeView {
    RuntimeView {
        next: ((v.next + 1) % 0x1_0000_0000_0000_0000) as u64,
        waiting: v.waiting.insert(v.next),
    }
}

/// The async RDMA runtime.
#[derive(Debug)]
pub struct RdmaRuntime {
    /// The operations that wait for a completion.
    pending: PendingMap,
    /// Monotonically increasing work request ID counter.
    ids: WrIds,
}

impl View for RdmaRuntime {
    type V = RuntimeView;

    closed spec fn view(&self) -> RuntimeView {
        RuntimeView { next: self.ids.next_id(), waiting: self.pending@ }
    }
}

impl RdmaRuntime {
    /// Create a new runtime. Nobody waits, and the first work request has id 1.
    pub fn new() -> (r: Self)
        ensures
            r@ == (RuntimeView { next: 1, waiting: Set::empty() }),
    {
        RdmaRuntime { pending: PendingMap::new(), ids: WrIds::new() }
    }

    /// The operations that wait, for dispatch.
    pub fn pending(&mut self) -> (p: &mut PendingMap)
        ensures
            p@ == old(self)@.waiting,
            final(self)@ == (RuntimeView { waiting: final(p)@, ..old(self)@ }),
    {
        &mut self.pending
    }

    /// Takes an id and registers the operation as waiting under it.
    fn begin(&mut self) -> (id: u64)
        ensures
            id == old(self)@.next,
            final(self)@ == begun(old(self)@),
    {
        let id: u64 = self.ids.next_wr_id();
        self.pending.insert(id);
        id
    }

    /// Begins a one-sided RDMA READ from remote memory.
    ///
    /// Reads `len` bytes from `remote_addr` on the remote peer into the buffer at
    /// `local_addr`. The remote peer must have registered the memory at
    /// `remote_addr` with the given `remote_rkey` and remote read access.
    pub fn rdma_read(
        &mut self,
        local_addr: u64,
        len: usize,
        mr_lkey: u32,
        remote_addr: u64,
        remote_rkey: u32,
    ) -> (r: SendWorkRequest)
        ensures
            final(self)@ == begun(old(self)@),
            r@ == one_sided(
                old(self)@.next,
                SendWrOpcode::RdmaRead,
                local_addr,
                len as nat,
                mr_lkey,
                remote_addr,
                remote_rkey,
                None,
                None,
            ),
    {
        let id: u64 = self.begin();
        one_sided_request(
            id,
            SendWrOpcode::RdmaRead,
            local_addr,
            len,
            mr_lkey,
            remote_addr,
            remote_rkey,
            None,
            None,
        )
    }

    /// The result of a READ: the number of bytes read.
    pub fn read_result(delivered: Result<WorkCompletion, RdmaError>) -> (r: Result<u32, RdmaError>)
        ensures
            match delivered {
                Ok(wc) => r == Ok::<u32, RdmaError>(wc.byte_len),
                Err(e) => r == Err::<u32, RdmaError>(e),
            },
    {
        match delivered {
            Ok(wc) => Ok(wc.byte_len),
            Err(e) => Err(e),
        }
    }

    /// Begins a one-sided RDMA WRITE to remote memory.
    ///
    /// Writes the `len` bytes at `local_addr` to `remote_addr` on the remote peer.
    /// The remote peer must have registered the memory at `remote_addr`
    /// with the given `remote_rkey` and remote write access.
    pub fn rdma_write(
        &mut self,
        local_addr: u64,
        len: usize,
        mr_lkey: u32,
        remote_addr: u64,
        remote_rkey: u32,
    ) -> (r: SendWorkRequest)
        ensures
            final(self)@ == begun(old(self)@),
            r@ == one_sided(
                old(self)@.next,
                SendWrOpcode::RdmaWrite,
                local_addr,
                len as nat,
                mr_lkey,
                remote_addr,
                remote_rkey,
                None,
                None,
            ),
    {
        let id: u64 = self.begin();
        one_sided_request(
            id,
            SendWrOpcode::RdmaWrite,
            local_addr,
            len,
            mr_lkey,
            remote_addr,
            remote_rkey,
            None,
            None,
        )
    }

    /// The result of a WRITE.
    pub fn write_result(delivered: Result<WorkCompletion, RdmaError>) -> (r: Result<(), RdmaError>)
        ensures
            match delivered {
                Ok(_) => r is Ok,
                Err(e) => r == Err::<(), RdmaError>(e),
            },
    {
        match delivered {
            Ok(_) => Ok(()),
            Err(e) => Err(e),
        }
    }

    /// Begins a one-sided RDMA CAS (Compare-And-Swap) on remote memory.
    ///
    /// Atomically reads the 8-byte value at `remote_addr`, compares it with
    /// `compare`, and if equal writes `swap`. The original value is read into
    /// the 8-byte buffer at `local_addr`.
    ///
    /// The remote peer must have registered the memory at `remote_addr` with
    /// the given `remote_rkey` and remote atomic access.
    pub fn rdma_cas(
        &mut self,
        local_addr: u64,
        compare: u64,
        swap: u64,
        mr_lkey: u32,
        remote_addr: u64,
        remote_rkey: u32,
    ) -> (r: SendWorkRequest)
        ensures
            final(self)@ == begun(old(self)@),
            r@ == one_sided(
                old(self)@.next,
                SendWrOpcode::RdmaCompareSwap,
                local_addr,
                8,
                mr_lkey,
                remote_addr,
                remote_rkey,
                Some(compare),
                Some(swap),
            ),
    {
        let id: u64 = self.begin();
        one_sided_request(
            id,
            SendWrOpcode::RdmaCompareSwap,
            local_addr,
            8,
            mr_lkey,
            remote_addr,
            remote_rkey,
            Some(compare),
            Some(swap),
        )
    }

    /// The result of a CAS from its completion and the original value that the
    /// device wrote to the local buffer: `true` if the value was swapped
    /// (`compare` matched the current value), `false` if it was not.
    pub fn cas_result(
        delivered: Result<WorkCompletion, RdmaError>,
        compare: u64,
        original: u64,
    ) -> (r: Result<bool, RdmaError>)
        ensures
            match delivered {
                Ok(wc) => r == Ok::<bool, RdmaError>(
                    wc.status == WcStatus::Success && original == compare,
                ),
                Err(e) => r == Err::<bool, RdmaError>(e),
            },
    {
        match delivered {
            Ok(wc) => Ok(wc.is_success() && original == compare),
            Err(e) => Err(e),
        }
    }

    /// What posting the work request came to. If it failed, nobody waits for its
    /// completion any more, and the error is the operation's.
    pub fn posted(&mut self, wr_id: u64, outcome: Result<u64, RdmaError>) -> (r: Result<
        (),
        RdmaError,
    >)
        ensures
            match outcome {
                Ok(_) => r is Ok && final(self)@ == old(self)@,
                Err(e) => r == Err::<(), RdmaError>(e) && final(self)@ == (RuntimeView {
                    waiting: old(self)@.waiting.remove(wr_id),
                    ..old(self)@
                }),
            },
    {
        match outcome {
            Ok(_) => Ok(()),
            Err(e) => {
                let _ = self.pending.remove(wr_id);
                Err(e)
            },
        }
    }

    /// The error of an operation whose waiter was dropped without a result.
    pub fn dropped(wr_id: u64) -> (e: RdmaError)
        ensures
            e@ == ErrorView::Internal(
                "Oneshot channel dropped for wr_id="@ + text::decimal(wr_id as nat)
                    + ": poller may have panicked"@,
            ),
    {
        let mut msg: String = "Oneshot channel dropped for wr_id=".to_owned();
        text::append_decimal(&mut msg, wr_id);
        msg.append(": poller may have panicked");
        RdmaError::Internal(msg)
    }
}

/// Ids are handed out in order: each is greater than the one before, until they
/// wrap around.
pub proof fn law_ids_increase(v: RuntimeView)
    requires
        v.next < u64::MAX,
    ensures
        begun(v).next > v.next,
        begun(v).waiting.contains(v.next),
{
}

/// An operation whose posting failed leaves no trace among those that wait, if
/// its id was not in use.
pub proof fn law_failed_post_leaves_no_waiter(v: RuntimeView)
    requires
        !v.waiting.contains(v.next),
    ensures
        begun(v).waiting.remove(v.next) == v.waiting,
{
    assert(begun(v).waiting.remove(v.next) =~= v.waiting);
}

/// An operation that begins takes its id and leaves all others as they were. The id
/// behind the last one is zero.
pub proof fn law_begin(v: RuntimeView, id: u64)
    ensures
        begun(v).waiting.contains(id) <==> v.waiting.contains(id) || id == v.next,
        v.next == u64::MAX ==> begun(v).next == 0,
        v.next < u64::MAX ==> begun(v).next == v.next + 1,
{
}

/// A one-sided work request names the local buffer, with its length and key, and the
/// remote memory, and asks for no flag of its own.
pub proof fn law_one_sided(
    wr_id: u64,
    opcode: SendWrOpcode,
    local_addr: u64,
    len: nat,
    lkey: u32,
    remote_addr: u64,
    remote_rkey: u32,
    compare_add: Option<u64>,
    swap: Option<u64>,
)
    ensures
        ({
            let wr = one_sided(
                wr_id,
                opcode,
                local_addr,
                len,
                lkey,
                remote_addr,
                remote_rkey,
                compare_add,
                swap,
            );
            &&& wr.wr_id == wr_id
            &&& wr.opcode == opcode
            &&& wr.send_flags == 0
            &&& wr.sge.len() == 1
            &&& wr.sge[0].addr == local_addr
            &&& wr.sge[0].lkey == lkey
            &&& len < 0x1_0000_0000 ==> wr.sge[0].length == len
            &&& wr.remote_addr == Some(remote_addr)
            &&& wr.remote_rkey == Some(remote_rkey)
            &&& wr.compare_add == compare_add
            &&& wr.swap == swap
        }),
{
}

} // verus!
