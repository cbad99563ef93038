//! The short version 1 fragment header.

use vstd::prelude::*;

use crate::bytes;
use crate::bytes::get_u32;

verus! {

pub const MAX_DGRAM_SIZE: usize = 1400;

pub const HEADER_SIZE: usize = 12;

pub const MAX_PAYLOAD_SIZE: usize = MAX_DGRAM_SIZE - HEADER_SIZE;

/// Fixed-size header in front of every datagram.
///
/// Wire format (little-endian):
///   [0..4]  seq: u32
///   [4]     fragment_index: u8
///   [5]     fragment_count: u8
///   [6..8]  reserved: [u8; 2]
///   [8..12] payload_len: u32
#[derive(Debug, Clone, Copy, PartialEq, Eq, Structural)]
pub struct FragmentHeader {
    pub seq: u32,
    pub fragment_index: u8,
    pub fragment_count: u8,
    pub payload_len: u32,
}

/// The bytes of a header. The reserved bytes are zero.
pub open spec fn header_bytes(h: FragmentHeader) -> Seq<u8> {
    bytes::bytes32(h.seq) + seq![h.fragment_index, h.fragment_count, 0, 0] + bytes::bytes32(
        h.payload_len,
    )
}

/// The header that 12 bytes spell, whatever the reserved ones hold.
pub open spec fn header_of(b: Seq<u8>) -> FragmentHeader {
    FragmentHeader {
        seq: bytes::le32(b, 0),
        fragment_index: b[4],
        fragment_count: b[5],
        payload_len: bytes::le32(b, 8),
    }
}

impl FragmentHeader {
    /// The header as it travels.
    pub fn to_bytes(&self) -> (buf: [u8; HEADER_SIZE])
        ensures
            buf@ == header_bytes(*self),
    {
        let buf: [u8; HEADER_SIZE] = [
            (self.seq % 256) as u8,
            (self.seq / 0x100 % 256) as u8,
            (self.seq / 0x1_0000 % 256) as u8,
            (self.seq / 0x100_0000) as u8,
            self.fragment_index,
            self.fragment_count,
            0,
            0,
            (self.payload_len % 256) as u8,
            (self.payload_len / 0x100 % 256) as u8,
            (self.payload_len / 0x1_0000 % 256) as u8,
            (self.payload_len / 0x100_0000) as u8,
        ];
        assert(buf@ =~= header_bytes(*self));
        buf
    }

    /// The header that the bytes spell.
    pub fn from_bytes(buf: &[u8; HEADER_SIZE]) -> (h: FragmentHeader)
        ensures
            h == header_of(buf@),
    {
        let b = buf.as_slice();
        FragmentHeader {
            seq: get_u32(b, 0),
            fragment_index: b[4],
            fragment_count: b[5],
            payload_len: get_u32(b, 8),
        }
    }
}

/// A header that has travelled is the header that was sent.
pub proof fn header_round_trip(h: FragmentHeader)
    ensures
        header_of(header_bytes(h)) == h,
{
    let b = header_bytes(h);
    assert(b.subrange(0, 4) =~= bytes::bytes32(h.seq));
    assert(b.subrange(8, 12) =~= bytes::bytes32(h.payload_len));
    bytes::le32_reads_bytes32(b, 0, h.seq);
    bytes::le32_reads_bytes32(b, 8, h.payload_len);
}

} // verus!
