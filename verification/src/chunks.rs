//! Chunking arithmetic: how an arbitrary-length request at an address is split
//! into consecutive bounded transactions, which frames those transactions send,
//! and what the concatenation of their responses means.

use vstd::prelude::*;
use crate::codec::{read_frame, write_frame};

verus! {

/// Upper bound on the byte length of one transaction.
pub const MAX_BYTES_PER_TRANSACTION: usize = 32;

/// The smaller of `a` and `b`.
pub open spec fn spec_min(a: int, b: int) -> int {
    if a <= b {
        a
    } else {
        b
    }
}

/// Number of transactions issued for a request of `length` bytes:
/// `ceil(length / 32)`.
pub open spec fn chunk_count(length: int) -> int {
    (length + MAX_BYTES_PER_TRANSACTION - 1) / (MAX_BYTES_PER_TRANSACTION as int)
}

/// Byte length of transaction `i` of a request of `length` bytes: the cap,
/// except for a shorter final transaction when the cap does not divide
/// `length`.
pub open spec fn chunk_size(length: int, i: int) -> int {
    spec_min(length - MAX_BYTES_PER_TRANSACTION * i, MAX_BYTES_PER_TRANSACTION as int)
}

/// The Read frames issued, in order, for a read of `length` bytes at
/// `address`: one frame per chunk, each at the next unread address.
pub open spec fn read_frames(address: int, length: int) -> Seq<Seq<u8>>
    decreases length,
{
    if length <= 0 {
        Seq::empty()
    } else {
        let s = spec_min(length, MAX_BYTES_PER_TRANSACTION as int);
        seq![read_frame(address as u32, s as u32)] + read_frames(address + s, length - s)
    }
}

/// The Write frames issued, in order, for a write of `data` at `address`: one
/// frame per chunk, each carrying the next unsent slice of `data`.
pub open spec fn write_frames(address: int, data: Seq<u8>) -> Seq<Seq<u8>>
    decreases data.len(),
{
    if data.len() == 0 {
        Seq::empty()
    } else {
        let s = spec_min(data.len() as int, MAX_BYTES_PER_TRANSACTION as int);
        seq![write_frame(address as u32, data.subrange(0, s))] + write_frames(
            address + s,
            data.subrange(s, data.len() as int),
        )
    }
}

/// What the chunked transactions of a read of `length` bytes at `address`
/// return when each returns exactly the device bytes of its own range, with
/// the device's address space modelled as `mem`: the concatenation, in issue
/// order, of the ranges.
pub open spec fn chunk_responses(mem: Seq<u8>, address: int, length: int) -> Seq<u8>
    decreases length,
{
    if length <= 0 {
        Seq::empty()
    } else {
        let s = spec_min(length, MAX_BYTES_PER_TRANSACTION as int);
        mem.subrange(address, address + s) + chunk_responses(mem, address + s, length - s)
    }
}

/// A read issues exactly `ceil(length / 32)` transactions.
pub proof fn lemma_read_frames_len(address: int, length: int)
    requires
        0 <= length,
    ensures
        read_frames(address, length).len() == chunk_count(length),
    decreases length,
{
    if length <= 0 {
    } else if length <= MAX_BYTES_PER_TRANSACTION {
        lemma_read_frames_len(address + length, 0);
    } else {
        lemma_read_frames_len(address + MAX_BYTES_PER_TRANSACTION, length - 32);
    }
}

/// A write of `data` issues exactly `ceil(data.len() / 32)` transactions.
pub proof fn lemma_write_frames_len(address: int, data: Seq<u8>)
    ensures
        write_frames(address, data).len() == chunk_count(data.len() as int),
    decreases data.len(),
{
    if data.len() == 0 {
    } else {
        let s = spec_min(data.len() as int, MAX_BYTES_PER_TRANSACTION as int);
        lemma_write_frames_len(address + s, data.subrange(s, data.len() as int));
    }
}

/// Chunking arithmetic for a read of `length > 0` bytes at `address`:
/// `ceil(length / 32)` transactions are issued; transaction `i` is a Read
/// frame for `chunk_size(length, i)` bytes at `address + 32 * i`; and the last
/// transaction's size is `length mod 32`, unless that is 0, in which case it
/// is 32.
pub proof fn lemma_chunk_layout(address: int, length: int)
    requires
        0 < length,
    ensures
        read_frames(address, length).len() == chunk_count(length),
        forall|i: int|
            0 <= i < chunk_count(length) ==> #[trigger] read_frames(address, length)[i]
                == read_frame((address + 32 * i) as u32, chunk_size(length, i) as u32),
        chunk_size(length, chunk_count(length) - 1) == if length % 32 == 0 {
            32int
        } else {
            length % 32
        },
    decreases length,
{
    lemma_read_frames_len(address, length);
    if length <= 32 {
        assert forall|i: int| 0 <= i < chunk_count(length) implies #[trigger] read_frames(
            address,
            length,
        )[i] == read_frame((address + 32 * i) as u32, chunk_size(length, i) as u32) by {
            assert(i == 0);
        }
    } else {
        lemma_chunk_layout(address + 32, length - 32);
        assert forall|i: int| 0 <= i < chunk_count(length) implies #[trigger] read_frames(
            address,
            length,
        )[i] == read_frame((address + 32 * i) as u32, chunk_size(length, i) as u32) by {
            if i == 0 {
            } else {
                assert(read_frames(address, length)[i] == read_frames(address + 32, length - 32)[i
                    - 1]);
                assert(read_frames(address + 32, length - 32)[i - 1] == read_frame(
                    (address + 32 + 32 * (i - 1)) as u32,
                    chunk_size(length - 32, i - 1) as u32,
                ));
                assert(address + 32 + 32 * (i - 1) == address + 32 * i);
                assert(chunk_size(length - 32, i - 1) == chunk_size(length, i));
            }
        }
    }
}

/// Read reassembly: when every transaction of the chunk plan returns exactly
/// the device bytes of its own range, the concatenation of the responses in
/// issue order is byte-exact equal to one read of the full requested range.
pub proof fn lemma_read_reassembly(mem: Seq<u8>, address: int, length: int)
    requires
        0 <= address,
        0 <= length,
        address + length <= mem.len(),
    ensures
        chunk_responses(mem, address, length) == mem.subrange(address, address + length),
    decreases length,
{
    if length <= 0 {
        assert(chunk_responses(mem, address, length) =~= mem.subrange(address, address + length));
    } else {
        let s = spec_min(length, MAX_BYTES_PER_TRANSACTION as int);
        lemma_read_reassembly(mem, address + s, length - s);
        assert(mem.subrange(address, address + s) + mem.subrange(address + s, address + length)
            =~= mem.subrange(address, address + length));
    }
}

} // verus!
