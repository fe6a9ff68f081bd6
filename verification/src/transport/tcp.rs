//! Frames of the TCP transport: a binary protocol with minimal overhead.
//!
//! ```text
//! Request:  [u8: opcode][u64: req_id][u64: addr][u32: rkey][u32: len][bytes: payload]
//! Response: [u64: req_id][u8: status][optional: data]
//! opcodes:  0x01=READ, 0x02=WRITE, 0x03=CAS
//! ```
//!
//! A CAS request carries `[u64: compare][u64: swap]` in place of length and
//! payload. A READ response carries `[u32: len][bytes: data]`, a CAS response
//! `[u8: swapped]`. All numbers are little-endian.

use vstd::prelude::*;
use vstd::string::*;

use crate::codec;
use crate::error::{ErrorView, RdmaError};
use crate::transport::{OpView, RemoteOp, RemoteReply, ReplyView};

verus! {

/// Opcode of a READ request.
pub const OP_READ: u8 = 1;

/// Opcode of a WRITE request.
pub const OP_WRITE: u8 = 2;

/// Opcode of a CAS request.
pub const OP_CAS: u8 = 3;

// ---------------------------------------------------------------------------
// Requests
// ---------------------------------------------------------------------------
/// The bytes of a request. A length is sent modulo `2^32`.
pub open spec fn request_bytes(req_id: u64, op: OpView) -> Seq<u8> {
    match op {
        OpView::Read { addr, rkey, len } => seq![OP_READ] + codec::le_digits(req_id as nat, 8)
            + codec::le_digits(addr as nat, 8) + codec::le_digits(rkey as nat, 4)
            + codec::le_digits(len as nat % 0x1_0000_0000, 4),
        OpView::Write { addr, rkey, bytes } => seq![OP_WRITE] + codec::le_digits(req_id as nat, 8)
            + codec::le_digits(addr as nat, 8) + codec::le_digits(rkey as nat, 4)
            + codec::le_digits(bytes.len() % 0x1_0000_0000, 4) + bytes,
        OpView::Cas { addr, rkey, compare, swap } => seq![OP_CAS] + codec::le_digits(
            req_id as nat,
            8,
        ) + codec::le_digits(addr as nat, 8) + codec::le_digits(rkey as nat, 4) + codec::le_digits(
            compare as nat,
            8,
        ) + codec::le_digits(swap as nat, 8),
    }
}

/// Appends eight bytes, the least significant first.
fn put_u64(out: &mut Vec<u8>, v: u64)
    ensures
        final(out)@ == old(out)@ + codec::le_digits(v as nat, 8),
{
    let digits: [u8; 8] = codec::encode_u64(v);
    out.extend_from_slice(&digits);
    assert(out@ =~= old(out)@ + codec::le_digits(v as nat, 8));
}

/// Appends four bytes, the least significant first.
fn put_u32(out: &mut Vec<u8>, v: u32)
    ensures
        final(out)@ == old(out)@ + codec::le_digits(v as nat, 4),
{
    let digits: [u8; 4] = codec::encode_u32(v);
    out.extend_from_slice(&digits);
    assert(out@ =~= old(out)@ + codec::le_digits(v as nat, 4));
}

/// The frame of a request.
pub fn encode_request(req_id: u64, op: &RemoteOp) -> (r: Vec<u8>)
    ensures
        r@ == request_bytes(req_id, op@),
{
    let mut out: Vec<u8> = Vec::new();
    match op {
        RemoteOp::Read { addr, rkey, len } => {
            out.push(OP_READ);
            put_u64(&mut out, req_id);
            put_u64(&mut out, *addr);
            put_u32(&mut out, *rkey);
            put_u32(&mut out, (*len % 0x1_0000_0000) as u32);
        },
        RemoteOp::Write { addr, rkey, bytes } => {
            let len: u64 = bytes.len() as u64;
            out.push(OP_WRITE);
            put_u64(&mut out, req_id);
            put_u64(&mut out, *addr);
            put_u32(&mut out, *rkey);
            put_u32(&mut out, (len % 0x1_0000_0000) as u32);
            out.extend_from_slice(bytes);
        },
        RemoteOp::Cas { addr, rkey, compare, swap } => {
            out.push(OP_CAS);
            put_u64(&mut out, req_id);
            put_u64(&mut out, *addr);
            put_u32(&mut out, *rkey);
            put_u64(&mut out, *compare);
            put_u64(&mut out, *swap);
        },
    }
    assert(out@ =~= request_bytes(req_id, op@));
    out
}

/// Numbers the requests of a connection.
#[derive(Debug)]
pub struct RequestIds {
    next: u64,
}

impl RequestIds {
    /// The id of the next request.
    pub closed spec fn next_id(&self) -> u64 {
        self.next
    }

    /// The first request has id 1.
    pub fn new() -> (r: Self)
        ensures
            r.next_id() == 1,
    {
        RequestIds { next: 1 }
    }

    /// Hands out the next id. Ids wrap around.
    pub fn take(&mut self) -> (id: u64)
        ensures
            id == old(self).next_id(),
            final(self).next_id() == (id + 1) % 0x1_0000_0000_0000_0000,
    {
        let id: u64 = self.next;
        self.next = id.wrapping_add(1);
        id
    }
}

// ---------------------------------------------------------------------------
// Responses
// ---------------------------------------------------------------------------
/// The number of bytes with which every response to the operation begins.
pub open spec fn head_len(op: OpView) -> nat {
    match op {
        OpView::Read { .. } => 13,
        OpView::Write { .. } => 9,
        OpView::Cas { .. } => 10,
    }
}

/// What the head of a response says: the reply is complete, or so many bytes of
/// data follow.
pub enum HeadView {
    Complete(ReplyView),
    DataFollows(nat),
}

/// The meaning of the head of a response. The status is the ninth byte, zero for
/// success; a failed CAS counts as one that did not swap.
pub open spec fn head_meaning(op: OpView, head: Seq<u8>) -> HeadView {
    match op {
        OpView::Read { .. } => if head[8] != 0 {
            HeadView::Complete(ReplyView::Failed(ErrorView::Internal("TCP READ failed"@)))
        } else {
            HeadView::DataFollows(codec::le_u32_at(head, 9))
        },
        OpView::Write { .. } => HeadView::Complete(
            if head[8] != 0 {
                ReplyView::Failed(ErrorView::Internal("TCP WRITE failed"@))
            } else {
                ReplyView::Written
            },
        ),
        OpView::Cas { .. } => HeadView::Complete(
            ReplyView::Swapped(head[8] == 0 && head[9] == 1),
        ),
    }
}

/// What the head of a response says.
#[derive(Debug)]
pub enum ResponseHead {
    /// There is nothing more to read.
    Complete(RemoteReply),
    /// So many bytes of data follow.
    DataFollows(u32),
}

impl View for ResponseHead {
    type V = HeadView;

    open spec fn view(&self) -> HeadView {
        match *self {
            ResponseHead::Complete(reply) => HeadView::Complete(reply@),
            ResponseHead::DataFollows(len) => HeadView::DataFollows(len as nat),
        }
    }
}

/// The number of bytes with which every response to the operation begins.
pub fn response_head_len(op: &RemoteOp) -> (n: usize)
    ensures
        n == head_len(op@),
{
    match op {
        RemoteOp::Read { .. } => 13,
        RemoteOp::Write { .. } => 9,
        RemoteOp::Cas { .. } => 10,
    }
}

/// Decodes the head of a response to the operation.
pub fn decode_head(op: &RemoteOp, head: &[u8]) -> (r: ResponseHead)
    requires
        head@.len() == head_len(op@),
    ensures
        r@ == head_meaning(op@, head@),
{
    match op {
        RemoteOp::Read { .. } => if head[8] != 0 {
            ResponseHead::Complete(
                RemoteReply::Failed(RdmaError::Internal("TCP READ failed".to_owned())),
            )
        } else {
            ResponseHead::DataFollows(codec::read_u32(head, 9))
        },
        RemoteOp::Write { .. } => if head[8] != 0 {
            ResponseHead::Complete(
                RemoteReply::Failed(RdmaError::Internal("TCP WRITE failed".to_owned())),
            )
        } else {
            ResponseHead::Complete(RemoteReply::Written)
        },
        RemoteOp::Cas { .. } => ResponseHead::Complete(
            RemoteReply::Swapped(head[8] == 0 && head[9] == 1),
        ),
    }
}

/// A buffer after data was copied to its start: as much of it as fits.
pub open spec fn filled(buf: Seq<u8>, data: Seq<u8>) -> Seq<u8> {
    Seq::new(
        buf.len(),
        |i: int|
            if i < data.len() {
                data[i]
            } else {
                buf[i]
            },
    )
}

/// Copies the data of a response to the start of the buffer, as much as fits.
pub fn copy_data(buf: &mut [u8], data: &[u8])
    ensures
        final(buf)@ == filled(old(buf)@, data@),
{
    let len: usize = if data.len() < buf.len() {
        data.len()
    } else {
        buf.len()
    };
    let mut i: usize = 0;
    while i < len
        invariant
            i <= len,
            len <= data@.len(),
            len <= buf@.len(),
            buf@.len() == old(buf)@.len(),
            forall|j: int| 0 <= j < i ==> buf@[j] == data@[j],
            forall|j: int| i <= j < buf@.len() ==> buf@[j] == old(buf)@[j],
        decreases len - i,
    {
        buf[i] = data[i];
        i = i + 1;
    }
    assert(buf@ =~= filled(old(buf)@, data@));
}

// ---------------------------------------------------------------------------
// Laws
// ---------------------------------------------------------------------------
/// The length that a request can carry.
pub open spec fn frame_sized(op: OpView) -> bool {
    match op {
        OpView::Read { len, .. } => len < 0x1_0000_0000,
        OpView::Write { bytes, .. } => bytes.len() < 0x1_0000_0000,
        OpView::Cas { .. } => true,
    }
}

/// The fields that every request has, at their places in the frame.
proof fn lemma_common_fields(req_id: u64, op: OpView)
    ensures
        ({
            let f = request_bytes(req_id, op);
            let (code, addr, rkey) = match op {
                OpView::Read { addr, rkey, .. } => (OP_READ, addr, rkey),
                OpView::Write { addr, rkey, .. } => (OP_WRITE, addr, rkey),
                OpView::Cas { addr, rkey, .. } => (OP_CAS, addr, rkey),
            };
            &&& f.len() >= 25
            &&& f[0] == code
            &&& codec::le_u64_at(f, 1) == req_id
            &&& codec::le_u64_at(f, 9) == addr
            &&& codec::le_u32_at(f, 17) == rkey
        }),
{
    let f = request_bytes(req_id, op);
    let (addr, rkey) = match op {
        OpView::Read { addr, rkey, .. } => (addr, rkey),
        OpView::Write { addr, rkey, .. } => (addr, rkey),
        OpView::Cas { addr, rkey, .. } => (addr, rkey),
    };
    reveal_with_fuel(codec::byte_range, 9);
    codec::lemma_decode_encode(req_id as nat, 8);
    codec::lemma_decode_encode(addr as nat, 8);
    codec::lemma_decode_encode(rkey as nat, 4);
    match op {
        OpView::Read { len, .. } => codec::lemma_decode_encode(len as nat % 0x1_0000_0000, 4),
        OpView::Write { bytes, .. } => codec::lemma_decode_encode(
            bytes.len() % 0x1_0000_0000,
            4,
        ),
        OpView::Cas { compare, swap, .. } => {
            codec::lemma_decode_encode(compare as nat, 8);
            codec::lemma_decode_encode(swap as nat, 8);
        },
    }
    assert(f.subrange(1, 9) =~= codec::le_digits(req_id as nat, 8));
    assert(f.subrange(9, 17) =~= codec::le_digits(addr as nat, 8));
    assert(f.subrange(17, 21) =~= codec::le_digits(rkey as nat, 4));
}

/// The fields that are the operation's own.
proof fn lemma_own_fields(req_id: u64, op: OpView)
    ensures
        ({
            let f = request_bytes(req_id, op);
            match op {
                OpView::Read { len, .. } => codec::le_u32_at(f, 21) == len as nat % 0x1_0000_0000,
                OpView::Write { bytes, .. } => f.skip(25) == bytes,
                OpView::Cas { compare, swap, .. } => codec::le_u64_at(f, 21) == compare
                    && codec::le_u64_at(f, 29) == swap,
            }
        }),
{
    let f = request_bytes(req_id, op);
    let (addr, rkey) = match op {
        OpView::Read { addr, rkey, .. } => (addr, rkey),
        OpView::Write { addr, rkey, .. } => (addr, rkey),
        OpView::Cas { addr, rkey, .. } => (addr, rkey),
    };
    reveal_with_fuel(codec::byte_range, 9);
    codec::lemma_decode_encode(req_id as nat, 8);
    codec::lemma_decode_encode(addr as nat, 8);
    codec::lemma_decode_encode(rkey as nat, 4);
    match op {
        OpView::Read { len, .. } => {
            codec::lemma_decode_encode(len as nat % 0x1_0000_0000, 4);
            assert(f.subrange(21, 25) =~= codec::le_digits(len as nat % 0x1_0000_0000, 4));
        },
        OpView::Write { bytes, .. } => {
            codec::lemma_decode_encode(bytes.len() % 0x1_0000_0000, 4);
            assert(f.skip(25) =~= bytes);
        },
        OpView::Cas { compare, swap, .. } => {
            codec::lemma_decode_encode(compare as nat, 8);
            codec::lemma_decode_encode(swap as nat, 8);
            assert(f.subrange(21, 29) =~= codec::le_digits(compare as nat, 8));
            assert(f.subrange(29, 37) =~= codec::le_digits(swap as nat, 8));
        },
    }
}

/// A frame determines its request: requests with the same bytes have the same id
/// and are the same operation.
pub proof fn law_frames_are_unambiguous(a_id: u64, a: OpView, b_id: u64, b: OpView)
    requires
        frame_sized(a),
        frame_sized(b),
        request_bytes(a_id, a) == request_bytes(b_id, b),
    ensures
        a_id == b_id,
        a == b,
{
    lemma_common_fields(a_id, a);
    lemma_common_fields(b_id, b);
    lemma_own_fields(a_id, a);
    lemma_own_fields(b_id, b);
}

/// A frame begins with its opcode, the id and where the memory lies; a read and a
/// write then carry their length, a write its bytes, and a compare-and-swap its two
/// values.
pub proof fn law_frame_layout(req_id: u64, op: OpView)
    ensures
        ({
            let f = request_bytes(req_id, op);
            match op {
                OpView::Read { addr, rkey, len } => {
                    &&& f.len() == 25
                    &&& f[0] == 1
                    &&& codec::le_u64_at(f, 1) == req_id
                    &&& codec::le_u64_at(f, 9) == addr
                    &&& codec::le_u32_at(f, 17) == rkey
                    &&& len < 0x1_0000_0000 ==> codec::le_u32_at(f, 21) == len
                },
                OpView::Write { addr, rkey, bytes } => {
                    &&& f.len() == 25 + bytes.len()
                    &&& f[0] == 2
                    &&& codec::le_u64_at(f, 1) == req_id
                    &&& codec::le_u64_at(f, 9) == addr
                    &&& codec::le_u32_at(f, 17) == rkey
                    &&& bytes.len() < 0x1_0000_0000 ==> codec::le_u32_at(f, 21) == bytes.len()
                    &&& f.skip(25) == bytes
                },
                OpView::Cas { addr, rkey, compare, swap } => {
                    &&& f.len() == 37
                    &&& f[0] == 3
                    &&& codec::le_u64_at(f, 1) == req_id
                    &&& codec::le_u64_at(f, 9) == addr
                    &&& codec::le_u32_at(f, 17) == rkey
                    &&& codec::le_u64_at(f, 21) == compare
                    &&& codec::le_u64_at(f, 29) == swap
                },
            }
        }),
{
    lemma_common_fields(req_id, op);
    lemma_own_fields(req_id, op);
    lemma_frame_len(req_id, op);
    if let OpView::Write { addr, rkey, bytes } = op {
        let f = request_bytes(req_id, op);
        reveal_with_fuel(codec::byte_range, 9);
        codec::lemma_decode_encode(req_id as nat, 8);
        codec::lemma_decode_encode(addr as nat, 8);
        codec::lemma_decode_encode(rkey as nat, 4);
        codec::lemma_decode_encode(bytes.len() % 0x1_0000_0000, 4);
        assert(f.subrange(21, 25) =~= codec::le_digits(bytes.len() % 0x1_0000_0000, 4));
    }
}

/// The length of a frame.
proof fn lemma_frame_len(req_id: u64, op: OpView)
    ensures
        request_bytes(req_id, op).len() == (match op {
            OpView::Read { .. } => 25,
            OpView::Write { bytes, .. } => 25 + bytes.len(),
            OpView::Cas { .. } => 37,
        }),
{
    let (addr, rkey) = match op {
        OpView::Read { addr, rkey, .. } => (addr, rkey),
        OpView::Write { addr, rkey, .. } => (addr, rkey),
        OpView::Cas { addr, rkey, .. } => (addr, rkey),
    };
    reveal_with_fuel(codec::byte_range, 9);
    codec::lemma_decode_encode(req_id as nat, 8);
    codec::lemma_decode_encode(addr as nat, 8);
    codec::lemma_decode_encode(rkey as nat, 4);
    match op {
        OpView::Read { len, .. } => codec::lemma_decode_encode(len as nat % 0x1_0000_0000, 4),
        OpView::Write { bytes, .. } => codec::lemma_decode_encode(
            bytes.len() % 0x1_0000_0000,
            4,
        ),
        OpView::Cas { compare, swap, .. } => {
            codec::lemma_decode_encode(compare as nat, 8);
            codec::lemma_decode_encode(swap as nat, 8);
        },
    }
}

/// The head of a response that a server sends for an outcome: the id, the status, and
/// for a successful read the length, for a compare-and-swap whether it swapped. It is
/// as long as every head of a response to the operation, and means the outcome.
pub proof fn law_head_reads_back(req_id: u64, op: OpView, status: u8, len: u32, swapped: bool)
    ensures
        ({
            let start = codec::le_digits(req_id as nat, 8).push(status);
            let head = match op {
                OpView::Read { .. } => start + codec::le_digits(len as nat, 4),
                OpView::Write { .. } => start,
                OpView::Cas { .. } => start.push(
                    if swapped {
                        1u8
                    } else {
                        0u8
                    },
                ),
            };
            &&& head.len() == head_len(op)
            &&& head_meaning(op, head) == (match op {
                OpView::Read { .. } => if status == 0 {
                    HeadView::DataFollows(len as nat)
                } else {
                    HeadView::Complete(ReplyView::Failed(ErrorView::Internal("TCP READ failed"@)))
                },
                OpView::Write { .. } => if status == 0 {
                    HeadView::Complete(ReplyView::Written)
                } else {
                    HeadView::Complete(ReplyView::Failed(ErrorView::Internal("TCP WRITE failed"@)))
                },
                OpView::Cas { .. } => HeadView::Complete(
                    ReplyView::Swapped(swapped && status == 0),
                ),
            })
        }),
{
    reveal_with_fuel(codec::byte_range, 9);
    codec::lemma_decode_encode(req_id as nat, 8);
    codec::lemma_decode_encode(len as nat, 4);
    let start = codec::le_digits(req_id as nat, 8).push(status);
    let head = start + codec::le_digits(len as nat, 4);
    assert(head.subrange(9, 13) =~= codec::le_digits(len as nat, 4));
    assert(head[8] == status);
}

/// A buffer holds the data that was copied to it, as much as fits, and keeps its
/// own bytes behind it.
pub proof fn law_copied_data(buf: Seq<u8>, data: Seq<u8>)
    ensures
        filled(buf, data).len() == buf.len(),
        data.len() <= buf.len() ==> filled(buf, data) == data + buf.skip(data.len() as int),
        data.len() > buf.len() ==> filled(buf, data) == data.take(buf.len() as int),
{
    if data.len() <= buf.len() {
        assert(filled(buf, data) =~= data + buf.skip(data.len() as int));
    } else {
        assert(filled(buf, data) =~= data.take(buf.len() as int));
    }
}

} // verus!
