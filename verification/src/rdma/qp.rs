//! Queue pairs: attributes of the state transitions, and work requests.
//!
//! Queue Pairs (QPs) are the core communication primitive in RDMA.
//! Each QP has a Send Queue (SQ) and a Receive Queue (RQ), and goes through
//! RESET, INIT, RTR and RTS.
//!
//! Only Reliable Connection (RC) QPs are currently supported.

use vstd::prelude::*;
use vstd::string::*;

use crate::error::{ErrorView, RdmaError};
use crate::text;

verus! {

// ---------------------------------------------------------------------------
// Public types for work requests
// ---------------------------------------------------------------------------
/// Send work request opcode for one-sided and two-sided operations.
#[derive(Debug, Clone, Copy, PartialEq, Eq, Structural)]
pub enum SendWrOpcode {
    /// One-sided RDMA read from remote memory.
    RdmaRead,
    /// One-sided RDMA write to remote memory.
    RdmaWrite,
    /// One-sided atomic compare-and-swap on remote memory.
    RdmaCompareSwap,
    /// Two-sided send.
    Send,
}

/// A scatter/gather entry describing a local memory segment.
#[derive(Debug, Clone, Copy, PartialEq, Eq, Structural)]
pub struct ScatterGatherEntry {
    /// Virtual address of the local buffer.
    pub addr: u64,
    /// Length of the buffer segment in bytes.
    pub length: u32,
    /// Local memory key for this segment.
    pub lkey: u32,
}

/// An RDMA send work request posted to a QP's send queue.
#[derive(Debug)]
pub struct SendWorkRequest {
    /// User-assigned ID, echoed back in the completion.
    pub wr_id: u64,
    /// Operation type: RDMA READ, WRITE, CAS, or SEND.
    pub opcode: SendWrOpcode,
    /// Send flags (the signaling flag is set or cleared on posting).
    pub send_flags: u32,
    /// Scatter/gather entries describing the local buffer(s).
    pub sge: Vec<ScatterGatherEntry>,
    /// Remote memory address (for RDMA READ, WRITE, CAS).
    pub remote_addr: Option<u64>,
    /// Remote memory rkey (for RDMA READ, WRITE, CAS).
    pub remote_rkey: Option<u32>,
    /// Compare value for CAS (for RDMA CAS).
    pub compare_add: Option<u64>,
    /// Swap value for CAS (for RDMA CAS).
    pub swap: Option<u64>,
}

/// An RDMA receive work request posted to a QP's receive queue.
#[derive(Debug)]
pub struct RecvWorkRequest {
    /// User-assigned ID, echoed back in the completion.
    pub wr_id: u64,
    /// Scatter/gather entries describing where to place received data.
    pub sge: Vec<ScatterGatherEntry>,
}

/// A send work request as a value.
#[verifier::ext_equal]
pub struct SendView {
    pub wr_id: u64,
    pub opcode: SendWrOpcode,
    pub send_flags: u32,
    pub sge: Seq<ScatterGatherEntry>,
    pub remote_addr: Option<u64>,
    pub remote_rkey: Option<u32>,
    pub compare_add: Option<u64>,
    pub swap: Option<u64>,
}

impl View for SendWorkRequest {
    type V = SendView;

    open spec fn view(&self) -> SendView {
        SendView {
            wr_id: self.wr_id,
            opcode: self.opcode,
            send_flags: self.send_flags,
            sge: self.sge@,
            remote_addr: self.remote_addr,
            remote_rkey: self.remote_rkey,
            compare_add: self.compare_add,
            swap: self.swap,
        }
    }
}

// ---------------------------------------------------------------------------
// What is handed to the device
// ---------------------------------------------------------------------------
/// The flag that asks for a completion of a send work request.
pub const SEND_SIGNALED: u32 = 2;

/// The operation-specific fields of a posted send work request.
#[derive(Debug, Clone, Copy, PartialEq, Eq, Structural)]
pub enum WrTarget {
    /// Remote memory to read or write.
    Rdma { remote_addr: u64, rkey: u32 },
    /// Remote memory to compare and swap.
    Atomic { remote_addr: u64, compare_add: u64, swap: u64, rkey: u32 },
    /// No remote memory.
    Plain,
}

/// A send work request in the form that the device takes.
#[derive(Debug)]
pub struct PostedSend {
    pub wr_id: u64,
    pub sge: Vec<ScatterGatherEntry>,
    /// The operation, in the numbering of the verbs.
    pub opcode: u32,
    pub send_flags: u32,
    pub target: WrTarget,
}

/// A posted send work request as a value.
#[verifier::ext_equal]
pub struct PostedView {
    pub wr_id: u64,
    pub sge: Seq<ScatterGatherEntry>,
    pub opcode: u32,
    pub send_flags: u32,
    pub target: WrTarget,
}

impl View for PostedSend {
    type V = PostedView;

    open spec fn view(&self) -> PostedView {
        PostedView {
            wr_id: self.wr_id,
            sge: self.sge@,
            opcode: self.opcode,
            send_flags: self.send_flags,
            target: self.target,
        }
    }
}

/// A receive work request in the form that the device takes.
#[derive(Debug)]
pub struct PostedRecv {
    pub wr_id: u64,
    pub sge: Vec<ScatterGatherEntry>,
}

/// The number of an operation in the verbs.
pub open spec fn opcode_number(opcode: SendWrOpcode) -> u32 {
    match opcode {
        SendWrOpcode::RdmaWrite => 0,
        SendWrOpcode::Send => 2,
        SendWrOpcode::RdmaRead => 4,
        SendWrOpcode::RdmaCompareSwap => 5,
    }
}

/// The value, or zero.
pub open spec fn or_zero(v: Option<u64>) -> u64 {
    match v {
        Some(x) => x,
        None => 0,
    }
}

/// The operation-specific fields; what is not given is zero.
pub open spec fn target_of(wr: SendView) -> WrTarget {
    let rkey = match wr.remote_rkey {
        Some(k) => k,
        None => 0,
    };
    match wr.opcode {
        SendWrOpcode::RdmaRead => WrTarget::Rdma { remote_addr: or_zero(wr.remote_addr), rkey },
        SendWrOpcode::RdmaWrite => WrTarget::Rdma { remote_addr: or_zero(wr.remote_addr), rkey },
        SendWrOpcode::RdmaCompareSwap => WrTarget::Atomic {
            remote_addr: or_zero(wr.remote_addr),
            compare_add: or_zero(wr.compare_add),
            swap: or_zero(wr.swap),
            rkey,
        },
        SendWrOpcode::Send => WrTarget::Plain,
    }
}

/// The flags of a work request that asks for a completion, or does not.
pub open spec fn flags_for(flags: u32, signaled: bool) -> u32 {
    if signaled {
        flags | SEND_SIGNALED
    } else {
        flags & !SEND_SIGNALED
    }
}

/// The form of a work request that the device takes.
pub open spec fn posted(wr: SendView, signaled: bool) -> PostedView {
    PostedView {
        wr_id: wr.wr_id,
        sge: wr.sge,
        opcode: opcode_number(wr.opcode),
        send_flags: flags_for(wr.send_flags, signaled),
        target: target_of(wr),
    }
}

/// The chain that a batch of work requests is posted as: only the last one asks
/// for a completion.
pub open spec fn chain_of(wrs: Seq<SendWorkRequest>) -> Seq<PostedView> {
    Seq::new(wrs.len(), |i: int| posted(wrs[i]@, i == wrs.len() - 1))
}

/// The work requests of a chain as values.
pub open spec fn chain_view(chain: Seq<PostedSend>) -> Seq<PostedView> {
    Seq::new(chain.len(), |i: int| chain[i]@)
}

/// Copies scatter/gather entries.
fn copy_sge(sge: &Vec<ScatterGatherEntry>) -> (r: Vec<ScatterGatherEntry>)
    ensures
        r@ == sge@,
{
    let mut r: Vec<ScatterGatherEntry> = Vec::new();
    let mut i: usize = 0;
    while i < sge.len()
        invariant
            i <= sge@.len(),
            r@ == sge@.take(i as int),
        decreases sge@.len() - i,
    {
        r.push(sge[i]);
        i = i + 1;
        assert(r@ =~= sge@.take(i as int));
    }
    assert(r@ =~= sge@);
    r
}

/// The number of an operation in the verbs.
fn map_send_opcode(opcode: SendWrOpcode) -> (n: u32)
    ensures
        n == opcode_number(opcode),
{
    match opcode {
        SendWrOpcode::RdmaWrite => 0,
        SendWrOpcode::RdmaRead => 4,
        SendWrOpcode::RdmaCompareSwap => 5,
        SendWrOpcode::Send => 2,
    }
}

/// The form of a work request that the device takes.
fn prepare(wr: &SendWorkRequest, signaled: bool) -> (r: PostedSend)
    ensures
        r@ == posted(wr@, signaled),
{
    let remote_addr: u64 = match wr.remote_addr {
        Some(x) => x,
        None => 0,
    };
    let rkey: u32 = match wr.remote_rkey {
        Some(x) => x,
        None => 0,
    };
    let target: WrTarget = match wr.opcode {
        SendWrOpcode::RdmaRead => WrTarget::Rdma { remote_addr, rkey },
        SendWrOpcode::RdmaWrite => WrTarget::Rdma { remote_addr, rkey },
        SendWrOpcode::RdmaCompareSwap => {
            let compare_add: u64 = match wr.compare_add {
                Some(x) => x,
                None => 0,
            };
            let swap: u64 = match wr.swap {
                Some(x) => x,
                None => 0,
            };
            WrTarget::Atomic { remote_addr, compare_add, swap, rkey }
        },
        SendWrOpcode::Send => WrTarget::Plain,
    };
    let send_flags: u32 = if signaled {
        wr.send_flags | SEND_SIGNALED
    } else {
        wr.send_flags & !SEND_SIGNALED
    };
    PostedSend {
        wr_id: wr.wr_id,
        sge: copy_sge(&wr.sge),
        opcode: map_send_opcode(wr.opcode),
        send_flags,
        target,
    }
}

// ---------------------------------------------------------------------------
// QueuePair
// ---------------------------------------------------------------------------
/// An RDMA queue pair: what is posted to it, and what its transitions set.
#[derive(Debug, Clone, Copy, PartialEq, Eq, Structural)]
pub struct QueuePair {
    qp_num: u32,
}

/// Queue pair states, in the numbering of the verbs.
#[derive(Debug, Clone, Copy, PartialEq, Eq, Structural)]
pub enum QpState {
    Reset,
    Init,
    Rtr,
    Rts,
    Sqd,
    Sqe,
    Error,
    Unknown,
}

/// Attributes that the transition to INIT sets.
#[derive(Debug, Clone, Copy, PartialEq, Eq, Structural)]
pub struct InitAttr {
    pub qp_state: QpState,
    pub pkey_index: u16,
    pub port_num: u8,
    pub qp_access_flags: u32,
    /// Which attributes are set, in the bits of the verbs.
    pub attr_mask: u32,
}

/// Global routing information of a transition to RTR.
#[derive(Debug, Clone, Copy, PartialEq, Eq, Structural)]
pub struct GlobalRoute {
    pub dgid: u128,
    pub sgid_index: u8,
    pub hop_limit: u8,
    pub traffic_class: u8,
    pub flow_label: u32,
}

/// Attributes that the transition to RTR sets.
#[derive(Debug, Clone, Copy, PartialEq, Eq, Structural)]
pub struct RtrAttr {
    pub qp_state: QpState,
    /// Path MTU, in the numbering of the verbs.
    pub path_mtu: u32,
    pub dest_qp_num: u32,
    pub rq_psn: u32,
    pub dlid: u16,
    pub port_num: u8,
    pub sl: u8,
    pub src_path_bits: u8,
    pub static_rate: u8,
    /// Present for RoCE connections.
    pub grh: Option<GlobalRoute>,
    pub max_dest_rd_atomic: u8,
    pub min_rnr_timer: u8,
    /// Which attributes are set, in the bits of the verbs.
    pub attr_mask: u32,
}

/// Attributes that the transition to RTS sets.
#[derive(Debug, Clone, Copy, PartialEq, Eq, Structural)]
pub struct RtsAttr {
    pub qp_state: QpState,
    pub sq_psn: u32,
    pub timeout: u8,
    pub retry_cnt: u8,
    pub rnr_retry: u8,
    pub max_rd_atomic: u8,
    /// Which attributes are set, in the bits of the verbs.
    pub attr_mask: u32,
}

/// Path MTU of 1024 bytes.
pub const MTU_1024: u32 = 3;

/// State, P_Key index, port and access flags.
pub const INIT_MASK: u32 = 57;

/// State, address vector, path MTU, destination QP number, receive PSN, and the
/// limits on RDMA reads and on the RNR timer.
pub const RTR_MASK: u32 = 1_216_897;

/// State, send PSN, timeout, both retry counts and the limit on RDMA reads.
pub const RTS_MASK: u32 = 77_313;

/// The transition that a queue pair makes, for error messages.
#[derive(Debug, Clone, Copy, PartialEq, Eq, Structural)]
pub enum Transition {
    ToInit,
    ToRtr,
    ToRts,
}

/// The message about a failed transition, up to its return code.
pub open spec fn transition_message(t: Transition) -> Seq<char> {
    match t {
        Transition::ToInit => "ibv_modify_qp (INIT) failed with return code "@,
        Transition::ToRtr => "ibv_modify_qp (RTR) failed with return code "@,
        Transition::ToRts => "ibv_modify_qp (RTS) failed with return code "@,
    }
}

/// The outcome of a transition, from its return code.
pub fn transition_result(t: Transition, ret: i32) -> (r: Result<(), RdmaError>)
    ensures
        match r {
            Ok(_) => ret == 0,
            Err(e) => ret != 0 && e@ == ErrorView::HardwareError(
                transition_message(t) + text::signed_decimal(ret as int),
            ),
        },
{
    if ret == 0 {
        return Ok(());
    }
    let prefix: &str = match t {
        Transition::ToInit => "ibv_modify_qp (INIT) failed with return code ",
        Transition::ToRtr => "ibv_modify_qp (RTR) failed with return code ",
        Transition::ToRts => "ibv_modify_qp (RTS) failed with return code ",
    };
    Err(RdmaError::HardwareError(text::with_code(prefix, ret)))
}

/// The outcome of posting with the return code `ret`: the `wr_id`, or the error.
pub open spec fn post_outcome(prefix: Seq<char>, ret: i32, wr_id: u64) -> Result<u64, ErrorView> {
    if ret == 0 {
        Ok(wr_id)
    } else {
        Err(ErrorView::HardwareError(prefix + text::signed_decimal(ret as int)))
    }
}

/// An outcome as a value.
pub open spec fn id_outcome(r: Result<u64, RdmaError>) -> Result<u64, ErrorView> {
    match r {
        Ok(id) => Ok(id),
        Err(e) => Err(e@),
    }
}

impl QueuePair {
    pub closed spec fn spec_qp_num(&self) -> u32 {
        self.qp_num
    }

    /// A queue pair with the handle that its creation returned, 0 standing for none,
    /// and its number.
    pub fn create(handle: u64, qp_num: u32) -> (r: Result<Self, RdmaError>)
        ensures
            match r {
                Ok(qp) => handle != 0 && qp.spec_qp_num() == qp_num,
                Err(e) => handle == 0 && e@ == ErrorView::HardwareError(
                    "ibv_create_qp returned NULL"@,
                ),
            },
    {
        if handle == 0 {
            return Err(RdmaError::HardwareError("ibv_create_qp returned NULL".to_owned()));
        }
        Ok(QueuePair { qp_num })
    }

    /// Get the local QP number.
    ///
    /// This number must be shared with the remote peer before
    /// transitioning to RTR.
    pub fn qp_num(&self) -> (n: u32)
        ensures
            n == self.spec_qp_num(),
    {
        self.qp_num
    }

    /// The transition to INIT state: the first after creation.
    /// The QP is initialized with access to the specified port and
    /// the configured access flags.
    pub fn init(&self, port_num: u8, access_flags: u32) -> (a: InitAttr)
        ensures
            a == (InitAttr {
                qp_state: QpState::Init,
                pkey_index: 0,
                port_num,
                qp_access_flags: access_flags,
                attr_mask: INIT_MASK,
            }),
    {
        InitAttr {
            qp_state: QpState::Init,
            pkey_index: 0,
            port_num,
            qp_access_flags: access_flags,
            attr_mask: INIT_MASK,
        }
    }

    /// The transition to RTR (Ready to Receive) state.
    ///
    /// # Parameters
    ///
    /// * `remote_qpn`: the remote peer's QP number.
    /// * `remote_lid`: the remote peer's local identifier (LID). Use port LID.
    /// * `remote_gid`: optional GID for RoCE connections (required for Ethernet).
    /// * `port_num`: local port number.
    /// * `rq_psn`: starting receive packet sequence number.
    pub fn ready_to_receive(
        &self,
        remote_qpn: u32,
        remote_lid: u16,
        remote_gid: Option<u128>,
        port_num: u8,
        rq_psn: u32,
    ) -> (a: RtrAttr)
        ensures
            a == (RtrAttr {
                qp_state: QpState::Rtr,
                path_mtu: MTU_1024,
                dest_qp_num: remote_qpn,
                rq_psn,
                dlid: remote_lid,
                port_num,
                sl: 0,
                src_path_bits: 0,
                static_rate: 0,
                grh: match remote_gid {
                    Some(dgid) => Some(
                        GlobalRoute {
                            dgid,
                            sgid_index: 1,
                            hop_limit: 64,
                            traffic_class: 0,
                            flow_label: 0,
                        },
                    ),
                    None => None,
                },
                max_dest_rd_atomic: 16,
                min_rnr_timer: 12,
                attr_mask: RTR_MASK,
            }),
    {
        let grh: Option<GlobalRoute> = match remote_gid {
            // GID index 1 is the default for RoCEv2.
            Some(dgid) => Some(
                GlobalRoute {
                    dgid,
                    sgid_index: 1,
                    hop_limit: 64,
                    traffic_class: 0,
                    flow_label: 0,
                },
            ),
            None => None,
        };
        RtrAttr {
            qp_state: QpState::Rtr,
            path_mtu: MTU_1024,
            dest_qp_num: remote_qpn,
            rq_psn,
            dlid: remote_lid,
            port_num,
            sl: 0,
            src_path_bits: 0,
            static_rate: 0,
            grh,
            max_dest_rd_atomic: 16,
            min_rnr_timer: 12,
            attr_mask: RTR_MASK,
        }
    }

    /// The transition to RTS (Ready to Send) state.
    ///
    /// After this transition, the QP is fully operational and can
    /// post send and receive work requests.
    pub fn ready_to_send(&self, sq_psn: u32) -> (a: RtsAttr)
        ensures
            a == (RtsAttr {
                qp_state: QpState::Rts,
                sq_psn,
                timeout: 14,
                retry_cnt: 7,
                rnr_retry: 7,
                max_rd_atomic: 16,
                attr_mask: RTS_MASK,
            }),
    {
        RtsAttr {
            qp_state: QpState::Rts,
            sq_psn,
            // About 67 ms: 4.096 us * 2^14.
            timeout: 14,
            retry_cnt: 7,
            rnr_retry: 7,
            max_rd_atomic: 16,
            attr_mask: RTS_MASK,
        }
    }

    /// What posting a send work request hands to the device: the request, always
    /// with a completion.
    ///
    /// For one-sided RDMA operations (READ, WRITE, CAS), use the appropriate
    /// `SendWorkRequest` opcode.
    pub fn post_send(&self, wr: &SendWorkRequest) -> (r: PostedSend)
        ensures
            r@ == posted(wr@, true),
    {
        prepare(wr, true)
    }

    /// The outcome of posting a send work request, from its return code: the
    /// `wr_id`, which can be matched against that of the completion.
    pub fn send_posted(ret: i32, wr_id: u64) -> (r: Result<u64, RdmaError>)
        ensures
            id_outcome(r) == post_outcome("ibv_post_send failed with return code "@, ret, wr_id),
    {
        if ret != 0 {
            return Err(
                RdmaError::HardwareError(
                    text::with_code("ibv_post_send failed with return code ", ret),
                ),
            );
        }
        Ok(wr_id)
    }

    /// What posting a batch of send work requests hands to the device: a linked
    /// chain, submitted with one doorbell ring.
    ///
    /// Only the LAST WR in the chain is signaled: a single CQ completion is
    /// generated for the entire batch.
    ///
    /// # Errors
    ///
    /// An empty batch is an [`RdmaError::Internal`].
    pub fn post_send_batch(&self, wrs: &[SendWorkRequest]) -> (r: Result<
        Vec<PostedSend>,
        RdmaError,
    >)
        ensures
            match r {
                Ok(chain) => wrs@.len() > 0 && chain_view(chain@) == chain_of(wrs@),
                Err(e) => wrs@.len() == 0 && e@ == ErrorView::Internal("empty batch"@),
            },
    {
        if wrs.len() == 0 {
            return Err(RdmaError::Internal("empty batch".to_owned()));
        }
        let mut chain: Vec<PostedSend> = Vec::new();
        let mut i: usize = 0;
        while i < wrs.len()
            invariant
                i <= wrs@.len(),
                wrs@.len() > 0,
                chain@.len() == i,
                forall|j: int|
                    0 <= j < i ==> (#[trigger] chain@[j])@ == posted(
                        wrs@[j]@,
                        j == wrs@.len() - 1,
                    ),
            decreases wrs@.len() - i,
        {
            let is_last: bool = i == wrs.len() - 1;
            chain.push(prepare(&wrs[i], is_last));
            i = i + 1;
        }
        assert(chain_view(chain@) =~= chain_of(wrs@));
        Ok(chain)
    }

    /// The outcome of posting a chain, from its return code: the `wr_id` of the
    /// LAST WR in the chain (single completion notification).
    pub fn batch_posted(ret: i32, chain: &[PostedSend]) -> (r: Result<u64, RdmaError>)
        requires
            chain@.len() > 0,
        ensures
            id_outcome(r) == post_outcome(
                "ibv_post_send (batch) failed: ret="@,
                ret,
                chain@.last().wr_id,
            ),
    {
        if ret != 0 {
            return Err(
                RdmaError::HardwareError(
                    text::with_code("ibv_post_send (batch) failed: ret=", ret),
                ),
            );
        }
        Ok(chain[chain.len() - 1].wr_id)
    }

    /// What posting a receive work request hands to the device.
    ///
    /// Receive WRs are needed for two-sided operations. For one-sided RDMA
    /// (READ, WRITE, CAS), no receive WRs are needed on the target side.
    pub fn post_recv(&self, wr: &RecvWorkRequest) -> (r: PostedRecv)
        ensures
            r.wr_id == wr.wr_id,
            r.sge@ == wr.sge@,
    {
        PostedRecv { wr_id: wr.wr_id, sge: copy_sge(&wr.sge) }
    }

    /// The outcome of posting a receive work request, from its return code.
    pub fn recv_posted(ret: i32, wr_id: u64) -> (r: Result<u64, RdmaError>)
        ensures
            id_outcome(r) == post_outcome("ibv_post_recv failed with return code "@, ret, wr_id),
    {
        if ret != 0 {
            return Err(
                RdmaError::HardwareError(
                    text::with_code("ibv_post_recv failed with return code ", ret),
                ),
            );
        }
        Ok(wr_id)
    }
}

// ---------------------------------------------------------------------------
// Laws
// ---------------------------------------------------------------------------
/// The work request asks for a completion.
pub open spec fn signaled(flags: u32) -> bool {
    flags & SEND_SIGNALED != 0
}

/// A batch generates one completion: in the chain, the last work request asks for
/// one and no other does. The chain keeps the order and the ids, and every flag
/// but the signaling flag.
pub proof fn law_batch_completes_once(wrs: Seq<SendWorkRequest>)
    requires
        wrs.len() > 0,
    ensures
        chain_of(wrs).len() == wrs.len(),
        forall|i: int|
            0 <= i < wrs.len() ==> {
                &&& (#[trigger] chain_of(wrs)[i]).wr_id == wrs[i].wr_id
                &&& signaled(chain_of(wrs)[i].send_flags) == (i == wrs.len() - 1)
                &&& chain_of(wrs)[i].send_flags & !SEND_SIGNALED == wrs[i].send_flags
                    & !SEND_SIGNALED
            },
{
    assert forall|i: int| 0 <= i < wrs.len() implies {
        &&& (#[trigger] chain_of(wrs)[i]).wr_id == wrs[i].wr_id
        &&& signaled(chain_of(wrs)[i].send_flags) == (i == wrs.len() - 1)
        &&& chain_of(wrs)[i].send_flags & !SEND_SIGNALED == wrs[i].send_flags & !SEND_SIGNALED
    } by {
        let f = wrs[i].send_flags;
        assert((f | 2u32) & 2u32 != 0) by (bit_vector);
        assert((f & !2u32) & 2u32 == 0) by (bit_vector);
        assert((f | 2u32) & !2u32 == f & !2u32) by (bit_vector);
        assert((f & !2u32) & !2u32 == f & !2u32) by (bit_vector);
    }
}

/// A single post always asks for a completion.
pub proof fn law_single_post_completes(wr: SendView)
    ensures
        signaled(posted(wr, true).send_flags),
{
    let f = wr.send_flags;
    assert((f | 2u32) & 2u32 != 0) by (bit_vector);
}

/// A work request reaches the device as it is: its id and buffers, its operation in
/// the numbering of the verbs, and the remote memory that it names. What it leaves out
/// is zero.
pub proof fn law_posted_form(wr: SendView, asks: bool)
    ensures
        posted(wr, asks).wr_id == wr.wr_id,
        posted(wr, asks).sge == wr.sge,
        posted(wr, asks).opcode == (match wr.opcode {
            SendWrOpcode::RdmaWrite => 0u32,
            SendWrOpcode::Send => 2u32,
            SendWrOpcode::RdmaRead => 4u32,
            SendWrOpcode::RdmaCompareSwap => 5u32,
        }),
        posted(wr, asks).target is Plain <==> wr.opcode is Send,
        posted(wr, asks).target is Atomic <==> wr.opcode is RdmaCompareSwap,
        posted(wr, asks).target matches WrTarget::Rdma { remote_addr, rkey } ==> {
            &&& wr.remote_addr == Some(remote_addr) || (wr.remote_addr is None && remote_addr == 0)
            &&& wr.remote_rkey == Some(rkey) || (wr.remote_rkey is None && rkey == 0)
        },
        posted(wr, asks).target matches WrTarget::Atomic { remote_addr, compare_add, swap, rkey }
            ==> {
            &&& wr.remote_addr == Some(remote_addr) || (wr.remote_addr is None && remote_addr == 0)
            &&& wr.remote_rkey == Some(rkey) || (wr.remote_rkey is None && rkey == 0)
            &&& wr.compare_add == Some(compare_add) || (wr.compare_add is None && compare_add == 0)
            &&& wr.swap == Some(swap) || (wr.swap is None && swap == 0)
        },
        posted(wr, true).send_flags == wr.send_flags | 2u32,
        posted(wr, false).send_flags == wr.send_flags & !2u32,
{
}

/// The work requests of a chain are those of the batch, each in the form in which it
/// would be posted alone, but for the signaling flag.
pub proof fn law_chain_keeps_the_requests(wrs: Seq<SendWorkRequest>, i: int)
    requires
        0 <= i < wrs.len(),
    ensures
        chain_of(wrs).len() == wrs.len(),
        ({
            let alone = posted(wrs[i]@, true);
            let chained = chain_of(wrs)[i];
            &&& chained.wr_id == alone.wr_id
            &&& chained.sge == alone.sge
            &&& chained.opcode == alone.opcode
            &&& chained.target == alone.target
            &&& i == wrs.len() - 1 ==> chained == alone
        }),
{
}

/// Each transition sets the attributes that the verbs require for it, bit by bit, and
/// the path MTU is 1024 bytes, the third size from 256 bytes on.
pub proof fn law_transition_attributes()
    ensures
        INIT_MASK == 1 + 0x8 + 0x10 + 0x20,
        RTR_MASK == 1 + 0x80 + 0x100 + 0x1000 + 0x8000 + 0x2_0000 + 0x10_0000,
        RTS_MASK == 1 + 0x200 + 0x400 + 0x800 + 0x2000 + 0x1_0000,
        MTU_1024 == 3,
{
}

/// Posting gives the id back when the device took the work request, and otherwise an
/// error that ends with the return code.
pub proof fn law_post_outcome(prefix: Seq<char>, ret: i32, wr_id: u64)
    ensures
        match post_outcome(prefix, ret, wr_id) {
            Ok(id) => ret == 0 && id == wr_id,
            Err(e) => {
                &&& ret != 0
                &&& e matches ErrorView::HardwareError(m) && m == prefix + text::signed_decimal(
                    ret as int,
                )
            },
        },
{
}

/// The message about a failed transition names the state that was not reached.
pub proof fn law_transition_message(t: Transition)
    ensures
        transition_message(t) == "ibv_modify_qp ("@ + (match t {
            Transition::ToInit => "INIT"@,
            Transition::ToRtr => "RTR"@,
            Transition::ToRts => "RTS"@,
        }) + ") failed with return code "@,
{
    reveal_strlit("ibv_modify_qp (");
    reveal_strlit(") failed with return code ");
    reveal_strlit("INIT");
    reveal_strlit("RTR");
    reveal_strlit("RTS");
    reveal_strlit("ibv_modify_qp (INIT) failed with return code ");
    reveal_strlit("ibv_modify_qp (RTR) failed with return code ");
    reveal_strlit("ibv_modify_qp (RTS) failed with return code ");
    match t {
        Transition::ToInit => assert("ibv_modify_qp (INIT) failed with return code "@
            =~= "ibv_modify_qp ("@ + "INIT"@ + ") failed with return code "@),
        Transition::ToRtr => assert("ibv_modify_qp (RTR) failed with return code "@
            =~= "ibv_modify_qp ("@ + "RTR"@ + ") failed with return code "@),
        Transition::ToRts => assert("ibv_modify_qp (RTS) failed with return code "@
            =~= "ibv_modify_qp ("@ + "RTS"@ + ") failed with return code "@),
    }
}

} // verus!
