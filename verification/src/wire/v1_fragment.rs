//! The version 1 fragment header.

use vstd::prelude::*;

use crate::bytes;
use crate::bytes::{get_u16, get_u32};

verus! {

pub const MAX_DGRAM_SIZE: usize = 1400;

pub const HEADER_SIZE: usize = 16;

pub const MAX_PAYLOAD_SIZE: usize = MAX_DGRAM_SIZE - HEADER_SIZE;

/// Fixed-size header in front of every datagram.
///
/// Wire format (little-endian):
///   [0..4]   seq: u32
///   [4..6]   fragment_index: u16
///   [6..8]   fragment_count: u16
///   [8..12]  payload_len: u32
///   [12..16] stream_epoch: u32
#[derive(Debug, Clone, Copy, PartialEq, Eq, Structural)]
pub struct FragmentHeader {
    pub seq: u32,
    pub fragment_index: u16,
    pub fragment_count: u16,
    pub payload_len: u32,
    /// Changes on every stream restart, so that the receiver drops the state
    /// of the old stream at once. Receivers that know no epochs ignore it.
    pub stream_epoch: u32,
}

/// The bytes of a header.
pub open spec fn header_bytes(h: FragmentHeader) -> Seq<u8> {
    bytes::bytes32(h.seq) + bytes::bytes16(h.fragment_index) + bytes::bytes16(h.fragment_count)
        + bytes::bytes32(h.payload_len) + bytes::bytes32(h.stream_epoch)
}

/// The header that 16 bytes spell.
pub open spec fn header_of(b: Seq<u8>) -> FragmentHeader {
    FragmentHeader {
        seq: bytes::le32(b, 0),
        fragment_index: bytes::le16(b, 4),
        fragment_count: bytes::le16(b, 6),
        payload_len: bytes::le32(b, 8),
        stream_epoch: bytes::le32(b, 12),
    }
}

impl FragmentHeader {
    /// The header as it travels.
    pub fn to_bytes(self) -> (buf: [u8; HEADER_SIZE])
        ensures
            buf@ == header_bytes(self),
    {
        let buf: [u8; HEADER_SIZE] = [
            (self.seq % 256) as u8,
            (self.seq / 0x100 % 256) as u8,
            (self.seq / 0x1_0000 % 256) as u8,
            (self.seq / 0x100_0000) as u8,
            (self.fragment_index % 256) as u8,
            (self.fragment_index / 256) as u8,
            (self.fragment_count % 256) as u8,
            (self.fragment_count / 256) as u8,
            (self.payload_len % 256) as u8,
            (self.payload_len / 0x100 % 256) as u8,
            (self.payload_len / 0x1_0000 % 256) as u8,
            (self.payload_len / 0x100_0000) as u8,
            (self.stream_epoch % 256) as u8,
            (self.stream_epoch / 0x100 % 256) as u8,
            (self.stream_epoch / 0x1_0000 % 256) as u8,
            (self.stream_epoch / 0x100_0000) as u8,
        ];
        assert(buf@ =~= header_bytes(self));
        buf
    }

    /// The header that the bytes spell.
    pub fn from_bytes(buf: &[u8; HEADER_SIZE]) -> (h: FragmentHeader)
        ensures
            h == header_of(buf@),
    {
        let b = buf.as_slice();
        FragmentHeader {
            seq: get_u32(b, 0),
            fragment_index: get_u16(b, 4),
            fragment_count: get_u16(b, 6),
            payload_len: get_u32(b, 8),
            stream_epoch: get_u32(b, 12),
        }
    }
}

/// A header that has travelled is the header that was sent.
pub proof fn header_round_trip(h: FragmentHeader)
    ensures
        header_of(header_bytes(h)) == h,
{
    let b = header_bytes(h);
    assert(b.subrange(0, 4) =~= bytes::bytes32(h.seq));
    assert(b.subrange(4, 6) =~= bytes::bytes16(h.fragment_index));
    assert(b.subrange(6, 8) =~= bytes::bytes16(h.fragment_count));
    assert(b.subrange(8, 12) =~= bytes::bytes32(h.payload_len));
    assert(b.subrange(12, 16) =~= bytes::bytes32(h.stream_epoch));
    bytes::le32_reads_bytes32(b, 0, h.seq);
    bytes::le16_reads_bytes16(b, 4, h.fragment_index);
    bytes::le16_reads_bytes16(b, 6, h.fragment_count);
    bytes::le32_reads_bytes32(b, 8, h.payload_len);
    bytes::le32_reads_bytes32(b, 12, h.stream_epoch);
}

} // verus!
