//! Frame codec: the exact byte layout of the three SRWP command frames.
//!
//! Every frame opens with the one-byte command-class prefix followed by the
//! one-byte opcode; all header fields are little-endian. The layouts are:
//!
//! | Command | Bytes              | Layout                                              |
//! |---------|--------------------|-----------------------------------------------------|
//! | Test    | 6 + len(payload)   | `[0x00, 0x00, len:u32-LE, payload...]`              |
//! | Read    | 10                 | `[0x00, 0x01, address:u32-LE, length:u32-LE]`       |
//! | Write   | 10 + len(payload)  | `[0x00, 0x02, address:u32-LE, length:u32-LE, payload...]` |
//!
//! No checksum or trailer follows the payload.

use vstd::prelude::*;
use vstd::slice::slice_index_get;

verus! {

/// Command-class prefix shared by every SRWP frame.
pub const SRWP_CMD: u8 = 0x00;

/// Opcode of the Test (connectivity diagnostic) command.
pub const CMD_TEST: u8 = 0x00;

/// Opcode of the Read command.
pub const CMD_READ: u8 = 0x01;

/// Opcode of the Write command.
pub const CMD_WRITE: u8 = 0x02;

/// The four bytes of `x` in little-endian order.
pub open spec fn le32(x: u32) -> Seq<u8> {
    seq![
        (x & 0xff) as u8,
        ((x >> 8) & 0xff) as u8,
        ((x >> 16) & 0xff) as u8,
        ((x >> 24) & 0xff) as u8,
    ]
}

/// Wire bytes of a Test frame carrying `payload`.
pub open spec fn test_frame(payload: Seq<u8>) -> Seq<u8> {
    seq![SRWP_CMD, CMD_TEST] + le32(payload.len() as u32) + payload
}

/// Wire bytes of a Read frame for `length` bytes at `address`.
pub open spec fn read_frame(address: u32, length: u32) -> Seq<u8> {
    seq![SRWP_CMD, CMD_READ] + le32(address) + le32(length)
}

/// Wire bytes of a Write frame putting `payload` at `address`.
pub open spec fn write_frame(address: u32, payload: Seq<u8>) -> Seq<u8> {
    seq![SRWP_CMD, CMD_WRITE] + le32(address) + le32(payload.len() as u32) + payload
}

/// Appends the little-endian bytes of `x` to `frame`.
fn push_le32(frame: &mut Vec<u8>, x: u32)
    ensures
        final(frame)@ == old(frame)@ + le32(x),
{
    frame.push((x & 0xff) as u8);
    frame.push(((x >> 8) & 0xff) as u8);
    frame.push(((x >> 16) & 0xff) as u8);
    frame.push(((x >> 24) & 0xff) as u8);
    proof {
        assert(frame@ =~= old(frame)@ + le32(x));
    }
}

/// Appends every byte of `payload` to `frame`.
fn push_payload(frame: &mut Vec<u8>, payload: &[u8])
    ensures
        final(frame)@ == old(frame)@ + payload@,
{
    let mut i: usize = 0;
    while i < payload.len()
        invariant
            i <= payload@.len(),
            frame@ == old(frame)@ + payload@.subrange(0, i as int),
        decreases payload@.len() - i,
    {
        frame.push(*slice_index_get(payload, i));
        i = i + 1;
        proof {
            assert(old(frame)@ + payload@.subrange(0, i - 1) + seq![payload@[i - 1]] =~= old(
                frame,
            )@ + payload@.subrange(0, i as int));
        }
    }
    proof {
        assert(payload@.subrange(0, payload@.len() as int) =~= payload@);
    }
}

/// Encodes the Test frame for `payload`: the command-class prefix, the Test
/// opcode, the payload length as little-endian u32, then the payload itself.
pub fn encode_test_frame(payload: &[u8]) -> (frame: Vec<u8>)
    requires
        payload@.len() <= u32::MAX,
    ensures
        frame@ == test_frame(payload@),
        frame@.len() == 6 + payload@.len(),
{
    let mut frame: Vec<u8> = Vec::new();
    frame.push(SRWP_CMD);
    frame.push(CMD_TEST);
    push_le32(&mut frame, payload.len() as u32);
    push_payload(&mut frame, payload);
    proof {
        assert(frame@ =~= test_frame(payload@));
    }
    frame
}

/// Encodes the Read frame for `length` bytes at `address`: the command-class
/// prefix, the Read opcode, then address and length as little-endian u32.
/// The frame is exactly 10 bytes and carries no payload.
pub fn encode_read_frame(address: u32, length: u32) -> (frame: Vec<u8>)
    ensures
        frame@ == read_frame(address, length),
        frame@.len() == 10,
{
    let mut frame: Vec<u8> = Vec::new();
    frame.push(SRWP_CMD);
    frame.push(CMD_READ);
    push_le32(&mut frame, address);
    push_le32(&mut frame, length);
    proof {
        assert(frame@ =~= read_frame(address, length));
    }
    frame
}

/// Encodes the Write frame putting `payload` at `address`: the command-class
/// prefix, the Write opcode, address and payload length as little-endian u32,
/// then the payload itself.
pub fn encode_write_frame(address: u32, payload: &[u8]) -> (frame: Vec<u8>)
    requires
        payload@.len() <= u32::MAX,
    ensures
        frame@ == write_frame(address, payload@),
        frame@.len() == 10 + payload@.len(),
{
    let mut frame: Vec<u8> = Vec::new();
    frame.push(SRWP_CMD);
    frame.push(CMD_WRITE);
    push_le32(&mut frame, address);
    push_le32(&mut frame, payload.len() as u32);
    push_payload(&mut frame, payload);
    proof {
        assert(frame@ =~= write_frame(address, payload@));
    }
    frame
}

} // verus!
