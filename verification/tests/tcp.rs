//! TCP frames against a server that keeps its memory in a buffer.

use rdmas::error::RdmaError;
use rdmas::transport::tcp::{
    copy_data, decode_head, encode_request, response_head_len, RequestIds, ResponseHead, OP_CAS,
    OP_READ, OP_WRITE,
};
use rdmas::transport::{RemoteOp, RemoteReply};

fn u32_at(bytes: &[u8], at: usize) -> u32 {
    u32::from_le_bytes(bytes[at..at + 4].try_into().unwrap())
}

fn u64_at(bytes: &[u8], at: usize) -> u64 {
    u64::from_le_bytes(bytes[at..at + 8].try_into().unwrap())
}

/// A server and the connection to it.
struct Connection {
    buffer: Vec<u8>,
    ids: RequestIds,
}

impl Connection {
    fn new() -> Self {
        Connection {
            buffer: vec![0xAAu8; 4096],
            ids: RequestIds::new(),
        }
    }

    /// The server's response to a frame.
    fn respond(&mut self, frame: &[u8]) -> Vec<u8> {
        let mut response = frame[1..9].to_vec();
        let offset = u64_at(frame, 9) as usize;
        match frame[0] {
            OP_READ => {
                assert_eq!(frame.len(), 25);
                let end = (offset + u32_at(frame, 21) as usize).min(self.buffer.len());
                let actual = end.saturating_sub(offset);
                response.push(0);
                response.extend_from_slice(&(actual as u32).to_le_bytes());
                response.extend_from_slice(&self.buffer[offset..offset + actual]);
            }
            OP_WRITE => {
                let len = u32_at(frame, 21) as usize;
                assert_eq!(frame.len(), 25 + len);
                let end = (offset + len).min(self.buffer.len());
                self.buffer[offset..end].copy_from_slice(&frame[25..25 + end - offset]);
                response.push(0);
            }
            OP_CAS => {
                assert_eq!(frame.len(), 37);
                if offset + 8 <= self.buffer.len() {
                    let swapped = u64_at(&self.buffer, offset) == u64_at(frame, 21);
                    if swapped {
                        self.buffer[offset..offset + 8].copy_from_slice(&frame[29..37]);
                    }
                    response.push(0);
                    response.push(swapped as u8);
                } else {
                    response.push(1);
                    response.push(0);
                }
            }
            other => panic!("unknown opcode {other}"),
        }
        response
    }

    fn perform(&mut self, op: &RemoteOp) -> RemoteReply {
        let frame = encode_request(self.ids.take(), op);
        let response = self.respond(&frame);
        let head = response_head_len(op);
        match decode_head(op, &response[..head]) {
            ResponseHead::Complete(reply) => reply,
            ResponseHead::DataFollows(len) => {
                assert_eq!(response.len(), head + len as usize);
                RemoteReply::Data(response[head..].to_vec())
            }
        }
    }

    fn read(&mut self, buf: &mut [u8], addr: u64) {
        let op = RemoteOp::Read { addr, rkey: 0, len: buf.len() as u64 };
        match self.perform(&op) {
            RemoteReply::Data(data) => copy_data(buf, &data),
            other => panic!("unexpected reply {other:?}"),
        }
    }

    fn write(&mut self, data: &[u8], addr: u64) {
        let op = RemoteOp::Write { addr, rkey: 0, bytes: data.to_vec() };
        assert!(matches!(self.perform(&op), RemoteReply::Written));
    }

    fn cas(&mut self, compare: u64, swap: u64, addr: u64) -> bool {
        match self.perform(&RemoteOp::Cas { addr, rkey: 0, compare, swap }) {
            RemoteReply::Swapped(b) => b,
            other => panic!("unexpected reply {other:?}"),
        }
    }
}

#[test]
fn test_tcp_read() {
    let mut transport = Connection::new();
    let mut buf = vec![0u8; 64];
    transport.read(&mut buf, 0);
    assert_eq!(&buf[..], &[0xAAu8; 64]);
}

#[test]
fn test_tcp_read_partial_offset() {
    let mut transport = Connection::new();

    let data = b"Hello, RDMAS TCP!";
    transport.write(data, 100);

    let mut buf = vec![0u8; data.len()];
    transport.read(&mut buf, 100);
    assert_eq!(&buf[..], &data[..]);
}

#[test]
fn test_tcp_write() {
    let mut transport = Connection::new();

    let data = [0x42u8; 128];
    transport.write(&data, 64);

    // Read back to verify
    let mut buf = vec![0u8; 128];
    transport.read(&mut buf, 64);
    assert_eq!(&buf[..], &data[..]);

    // Bytes before offset 64 should still be 0xAA
    let mut before = vec![0u8; 64];
    transport.read(&mut before, 0);
    assert_eq!(&before[..], &[0xAAu8; 64]);
}

#[test]
fn test_tcp_write_large_payload() {
    let mut transport = Connection::new();

    // Write 2 KB at offset 256
    let data = vec![0xDEu8; 2048];
    transport.write(&data, 256);

    // Read back
    let mut buf = vec![0u8; 2048];
    transport.read(&mut buf, 256);
    assert_eq!(buf, data);
}

#[test]
fn test_tcp_cas_success() {
    let mut transport = Connection::new();

    // Buffer starts as all 0xAA, so offset 0 is 0xAAAAAAAA_AAAAAAAA
    let result = transport.cas(0xAAAAAAAA_AAAAAAAA, 0xDEADBEEF_DEADBEEF, 0);
    assert!(result, "CAS should succeed when compare matches initial 0xAA");
}

#[test]
fn test_tcp_cas_failure() {
    let mut transport = Connection::new();

    // CAS to set a value first
    transport.cas(0xAAAAAAAA_AAAAAAAA, 0xDEADBEEF_DEADBEEF, 0);

    // Now CAS with wrong compare: must fail
    let result = transport.cas(0xAAAAAAAA_AAAAAAAA, 0xCAFECAFE_CAFECAFE, 0);
    assert!(!result, "CAS should fail when compare does not match current value");
}

#[test]
fn test_tcp_cas_chain() {
    let mut transport = Connection::new();

    let values: [(u64, u64); 4] = [
        (0xAAAAAAAA_AAAAAAAA, 0x11111111_11111111),
        (0x11111111_11111111, 0x22222222_22222222),
        (0x22222222_22222222, 0x33333333_33333333),
        (0x33333333_33333333, 0x44444444_44444444),
    ];

    for (compare, swap) in &values {
        let result = transport.cas(*compare, *swap, 0);
        assert!(result, "CAS chain step failed: {:#x} -> {:#x}", compare, swap);
    }
}

#[test]
fn test_tcp_multiple_operations_single_connection() {
    let mut transport = Connection::new();

    for i in 0..100u64 {
        // Write
        let data = i.to_le_bytes();
        transport.write(&data, i * 8);

        // Read back
        let mut buf = vec![0u8; 8];
        transport.read(&mut buf, i * 8);
        assert_eq!(buf, data, "Round-trip failed at iteration {}", i);
    }
}

// -----------------------------------------------------------------------
// Frames
// -----------------------------------------------------------------------

#[test]
fn read_frame_bytes() {
    let op = RemoteOp::Read { addr: 0x0102, rkey: 7, len: 300 };
    assert_eq!(
        encode_request(5, &op),
        vec![
            1, 5, 0, 0, 0, 0, 0, 0, 0, 2, 1, 0, 0, 0, 0, 0, 0, 7, 0, 0, 0, 44, 1, 0, 0
        ]
    );
}

#[test]
fn write_frame_carries_payload() {
    let op = RemoteOp::Write { addr: 1, rkey: 2, bytes: vec![9, 8] };
    assert_eq!(
        encode_request(3, &op),
        vec![
            2, 3, 0, 0, 0, 0, 0, 0, 0, 1, 0, 0, 0, 0, 0, 0, 0, 2, 0, 0, 0, 2, 0, 0, 0, 9, 8
        ]
    );
}

#[test]
fn different_operations_have_different_frames() {
    let ops = [
        RemoteOp::Read { addr: 8, rkey: 1, len: 8 },
        RemoteOp::Read { addr: 8, rkey: 2, len: 8 },
        RemoteOp::Read { addr: 16, rkey: 1, len: 8 },
        RemoteOp::Write { addr: 8, rkey: 1, bytes: vec![0; 8] },
        RemoteOp::Write { addr: 8, rkey: 1, bytes: vec![0; 12] },
        RemoteOp::Cas { addr: 8, rkey: 1, compare: 0, swap: 0 },
        RemoteOp::Cas { addr: 8, rkey: 1, compare: 0, swap: 1 },
    ];
    for i in 0..ops.len() {
        for j in 0..ops.len() {
            assert_eq!(encode_request(1, &ops[i]) == encode_request(1, &ops[j]), i == j);
        }
        assert_ne!(encode_request(1, &ops[i]), encode_request(2, &ops[i]));
    }
}

#[test]
fn request_ids_count_from_one() {
    let mut ids = RequestIds::new();
    assert_eq!((ids.take(), ids.take(), ids.take()), (1, 2, 3));
}

#[test]
fn failed_read_is_an_error() {
    let op = RemoteOp::Read { addr: 0, rkey: 0, len: 4 };
    let mut head = [0u8; 13];
    head[8] = 1;
    match decode_head(&op, &head) {
        ResponseHead::Complete(RemoteReply::Failed(RdmaError::Internal(m))) => {
            assert_eq!(m, "TCP READ failed")
        }
        other => panic!("unexpected head {other:?}"),
    }
}

#[test]
fn failed_write_is_an_error() {
    let op = RemoteOp::Write { addr: 0, rkey: 0, bytes: vec![1] };
    let head = [0, 0, 0, 0, 0, 0, 0, 0, 2];
    match decode_head(&op, &head) {
        ResponseHead::Complete(RemoteReply::Failed(RdmaError::Internal(m))) => {
            assert_eq!(m, "TCP WRITE failed")
        }
        other => panic!("unexpected head {other:?}"),
    }
}

#[test]
fn cas_out_of_bounds_does_not_swap() {
    let mut transport = Connection::new();
    assert!(!transport.cas(0xAAAAAAAA_AAAAAAAA, 1, 4095));
}

#[test]
fn short_data_leaves_the_rest_of_the_buffer() {
    let mut buf = [7u8; 4];
    copy_data(&mut buf, &[1, 2]);
    assert_eq!(buf, [1, 2, 7, 7]);
    copy_data(&mut buf, &[3, 4, 5, 6, 9]);
    assert_eq!(buf, [3, 4, 5, 6]);
}
