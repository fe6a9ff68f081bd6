//! Remote memory operations.
//!
//! The data plane reads, writes and compare-and-swaps memory of another node.
//! A protocol of the client is a state machine that issues a [`RemoteOp`], is
//! handed the [`RemoteReply`], and goes on from there; whoever runs it performs
//! the operations over RDMA or over TCP.

use vstd::prelude::*;

use crate::codec;
use crate::error::{ErrorView, RdmaError};

/// Frames of the TCP fallback
pub mod tcp;

/// Work requests of the RDMA transport
pub mod rdma;

/// GPU memory
pub mod gdr;

verus! {

/// An operation on remote memory.
#[derive(Debug)]
pub enum RemoteOp {
    /// Read `len` bytes.
    Read { addr: u64, rkey: u32, len: u64 },
    /// Write the bytes.
    Write { addr: u64, rkey: u32, bytes: Vec<u8> },
    /// Replace the eight bytes at `addr` by `swap` if they are `compare`.
    Cas { addr: u64, rkey: u32, compare: u64, swap: u64 },
}

/// A remote operation as a value.
#[verifier::ext_equal]
pub enum OpView {
    Read { addr: u64, rkey: u32, len: u64 },
    Write { addr: u64, rkey: u32, bytes: Seq<u8> },
    Cas { addr: u64, rkey: u32, compare: u64, swap: u64 },
}

impl View for RemoteOp {
    type V = OpView;

    open spec fn view(&self) -> OpView {
        match *self {
            RemoteOp::Read { addr, rkey, len } => OpView::Read { addr, rkey, len },
            RemoteOp::Write { addr, rkey, bytes } => OpView::Write { addr, rkey, bytes: bytes@ },
            RemoteOp::Cas { addr, rkey, compare, swap } => OpView::Cas {
                addr,
                rkey,
                compare,
                swap,
            },
        }
    }
}

/// What came back of a remote operation.
#[derive(Debug)]
pub enum RemoteReply {
    /// The bytes that a read asked for.
    Data(Vec<u8>),
    /// A write is done.
    Written,
    /// A compare-and-swap is done; whether it swapped.
    Swapped(bool),
    /// The operation failed.
    Failed(RdmaError),
}

/// A reply as a value.
pub enum ReplyView {
    Data(Seq<u8>),
    Written,
    Swapped(bool),
    Failed(ErrorView),
}

impl View for RemoteReply {
    type V = ReplyView;

    open spec fn view(&self) -> ReplyView {
        match *self {
            RemoteReply::Data(bytes) => ReplyView::Data(bytes@),
            RemoteReply::Written => ReplyView::Written,
            RemoteReply::Swapped(done) => ReplyView::Swapped(done),
            RemoteReply::Failed(e) => ReplyView::Failed(e@),
        }
    }
}

/// The reply answers the operation: it failed, or it is of the operation's kind,
/// with as many bytes as a read asked for.
pub open spec fn answers(reply: ReplyView, op: OpView) -> bool {
    match reply {
        ReplyView::Failed(_) => true,
        ReplyView::Data(bytes) => op matches OpView::Read { len, .. } && bytes.len() == len,
        ReplyView::Written => op is Write,
        ReplyView::Swapped(_) => op is Cas,
    }
}

// ---------------------------------------------------------------------------
// Memory, for laws
// ---------------------------------------------------------------------------
/// What an operation does to a memory that nobody else touches, and its reply.
pub open spec fn perform(mem: Seq<u8>, op: OpView) -> (Seq<u8>, ReplyView) {
    match op {
        OpView::Read { addr, len, .. } => (
            mem,
            ReplyView::Data(mem.subrange(addr as int, addr + len)),
        ),
        OpView::Write { addr, bytes, .. } => (
            codec::splice(mem, addr as int, bytes),
            ReplyView::Written,
        ),
        OpView::Cas { addr, compare, swap, .. } => if codec::le_u64_at(mem, addr as int)
            == compare {
            (
                codec::splice(mem, addr as int, codec::le_digits(swap as nat, 8)),
                ReplyView::Swapped(true),
            )
        } else {
            (mem, ReplyView::Swapped(false))
        },
    }
}

} // verus!
