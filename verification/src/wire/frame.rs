//! The version 1 frame packet: a FlatBuffers table.
//!
//! The table is written with the `flatbuffers` builder and read by hand, in
//! the shape in which the receiver reads it.

use flatbuffers::FlatBufferBuilder;
use vstd::prelude::*;
use vstd::slice::{slice_subrange, slice_to_vec};

use crate::bytes;
use crate::bytes::{get_u16, get_u32, get_u64};

verus! {

// Offsets of the fields in the vtable (4 + 2 * field index).
pub const VT_SEQ: u16 = 4;

pub const VT_TIMESTAMP_US: u16 = 6;

pub const VT_DATA: u16 = 8;

pub const VT_WIDTH: u16 = 10;

pub const VT_HEIGHT: u16 = 12;

pub const VT_IS_KEYFRAME: u16 = 14;

/// The longest frame that fits a FlatBuffer: the builder takes buffers of at
/// most 2 GiB and sets 128 bytes aside for the table.
pub const MAX_FRAME_LEN: usize = 0x7FFF_FF80;

// ---- the table layout ------------------------------------------------------

/// The 16-bit word at `at`, if it lies inside.
pub open spec fn word16(d: Seq<u8>, at: int) -> Option<u16> {
    if 0 <= at && at + 2 <= d.len() {
        Some(bytes::le16(d, at))
    } else {
        None
    }
}

/// The 32-bit word at `at`, if it lies inside.
pub open spec fn word32(d: Seq<u8>, at: int) -> Option<u32> {
    if 0 <= at && at + 4 <= d.len() {
        Some(bytes::le32(d, at))
    } else {
        None
    }
}

/// The 64-bit word at `at`, if it lies inside.
pub open spec fn word64(d: Seq<u8>, at: int) -> Option<u64> {
    if 0 <= at && at + 8 <= d.len() {
        Some(bytes::le64(d, at))
    } else {
        None
    }
}

/// The two's complement reading of a 32-bit word.
pub open spec fn signed32(u: u32) -> int {
    if u < 0x8000_0000 {
        u as int
    } else {
        u - 0x1_0000_0000
    }
}

/// Where a table and its vtable stand, and how long the vtable is.
pub struct TableRef {
    pub table: int,
    pub vtable: int,
    pub vtable_size: int,
}

/// The root table of a buffer. The vtable stands a signed offset in front of
/// the table.
pub open spec fn root_table(d: Seq<u8>) -> Option<TableRef> {
    match word32(d, 0) {
        None => None,
        Some(table) => match word32(d, table as int) {
            None => None,
            Some(offset) => {
                let vtable = table - signed32(offset);
                match word16(d, vtable) {
                    None => None,
                    Some(size) => Some(
                        TableRef { table: table as int, vtable, vtable_size: size as int },
                    ),
                }
            },
        },
    }
}

/// Where a field of a table stands; a field that is left out stands nowhere.
pub open spec fn field_place(d: Seq<u8>, t: TableRef, slot: int) -> Option<int> {
    if slot + 2 > t.vtable_size {
        None
    } else {
        match word16(d, t.vtable + slot) {
            None => None,
            Some(rel) => if rel == 0 {
                None
            } else {
                Some(t.table + rel)
            },
        }
    }
}

/// A 32-bit field; 0 if it is left out.
pub open spec fn field32(d: Seq<u8>, t: TableRef, slot: int) -> Option<u32> {
    match field_place(d, t, slot) {
        None => Some(0),
        Some(at) => word32(d, at),
    }
}

/// A 64-bit field; 0 if it is left out.
pub open spec fn field64(d: Seq<u8>, t: TableRef, slot: int) -> Option<u64> {
    match field_place(d, t, slot) {
        None => Some(0),
        Some(at) => word64(d, at),
    }
}

/// An 8-bit field; 0 if it is left out.
pub open spec fn field8(d: Seq<u8>, t: TableRef, slot: int) -> Option<u8> {
    match field_place(d, t, slot) {
        None => Some(0),
        Some(at) => if 0 <= at < d.len() {
            Some(d[at])
        } else {
            None
        },
    }
}

/// A field that is a vector of bytes.
pub open spec fn field_bytes(d: Seq<u8>, t: TableRef, slot: int) -> Option<Seq<u8>> {
    match field_place(d, t, slot) {
        None => None,
        Some(at) => match word32(d, at) {
            None => None,
            Some(offset) => match word32(d, at + offset) {
                None => None,
                Some(len) => if at + offset + 4 + len <= d.len() {
                    Some(d.subrange(at + offset + 4, at + offset + 4 + len))
                } else {
                    None
                },
            },
        },
    }
}

// ---- the frame packet ------------------------------------------------------

/// A decoded frame packet.
#[derive(Debug, Clone, PartialEq, Eq)]
pub struct ParsedFramePacket {
    pub seq: u32,
    pub timestamp_us: u64,
    pub data: Vec<u8>,
    pub width: u32,
    pub height: u32,
    pub is_keyframe: bool,
}

/// A frame packet with its data as a sequence.
#[verifier::ext_equal]
pub struct FramePacket {
    pub seq: u32,
    pub timestamp_us: u64,
    pub data: Seq<u8>,
    pub width: u32,
    pub height: u32,
    pub is_keyframe: bool,
}

impl View for ParsedFramePacket {
    type V = FramePacket;

    open spec fn view(&self) -> FramePacket {
        FramePacket {
            seq: self.seq,
            timestamp_us: self.timestamp_us,
            data: self.data@,
            width: self.width,
            height: self.height,
            is_keyframe: self.is_keyframe,
        }
    }
}

/// The frame packet that a buffer holds. Every field but the data may be left
/// out, and is then 0 or false; nothing may point outside the buffer.
pub open spec fn frame_packet_of(d: Seq<u8>) -> Option<FramePacket> {
    match root_table(d) {
        None => None,
        Some(t) => match (
            field32(d, t, VT_SEQ as int),
            field64(d, t, VT_TIMESTAMP_US as int),
            field_bytes(d, t, VT_DATA as int),
            field32(d, t, VT_WIDTH as int),
            field32(d, t, VT_HEIGHT as int),
            field8(d, t, VT_IS_KEYFRAME as int),
        ) {
            (Some(seq), Some(ts), Some(data), Some(width), Some(height), Some(key)) => Some(
                FramePacket {
                    seq,
                    timestamp_us: ts,
                    data,
                    width,
                    height,
                    is_keyframe: key != 0,
                },
            ),
            _ => None,
        },
    }
}

/// The bytes that the `flatbuffers` builder makes of a frame packet.
pub uninterp spec fn built_frame(
    seq: u32,
    timestamp_us: u64,
    data: Seq<u8>,
    width: u32,
    height: u32,
    is_keyframe: bool,
) -> Seq<u8>;

/// `flatbuffers::FlatBufferBuilder`: creates the data vector, then a table
/// with the six fields, of which `push_slot` leaves out those that hold their
/// default, and finishes the buffer with that table as its root. Claimed: the
/// bytes are a function of the arguments, and read by the FlatBuffers table
/// layout they give the fields back. The builder panics on buffers beyond
/// 2 GiB.
#[verifier::external_body]
fn build_frame(
    seq: u32,
    timestamp_us: u64,
    data: &[u8],
    width: u32,
    height: u32,
    is_keyframe: bool,
) -> (buf: Vec<u8>)
    requires
        data@.len() <= MAX_FRAME_LEN,
    ensures
        buf@ == built_frame(seq, timestamp_us, data@, width, height, is_keyframe),
        frame_packet_of(buf@) == Some(
            FramePacket { seq, timestamp_us, data: data@, width, height, is_keyframe },
        ),
{
    let mut builder = FlatBufferBuilder::with_capacity(data.len() + 128);
    let vector = builder.create_vector(data);
    let start = builder.start_table();
    builder.push_slot::<u32>(VT_SEQ, seq, 0);
    builder.push_slot::<u64>(VT_TIMESTAMP_US, timestamp_us, 0);
    builder.push_slot_always(VT_DATA, vector);
    builder.push_slot::<u32>(VT_WIDTH, width, 0);
    builder.push_slot::<u32>(VT_HEIGHT, height, 0);
    builder.push_slot::<bool>(VT_IS_KEYFRAME, is_keyframe, false);
    let root = builder.end_table(start);
    builder.finish(root, None);
    builder.finished_data().to_vec()
}

/// Serializes a frame packet. Parsing the bytes gives the packet back.
pub fn serialize_frame_packet(
    seq: u32,
    timestamp_us: u64,
    data: &[u8],
    width: u32,
    height: u32,
    is_keyframe: bool,
) -> (buf: Vec<u8>)
    requires
        data@.len() <= MAX_FRAME_LEN,
    ensures
        buf@ == built_frame(seq, timestamp_us, data@, width, height, is_keyframe),
        frame_packet_of(buf@) == Some(
            FramePacket { seq, timestamp_us, data: data@, width, height, is_keyframe },
        ),
{
    build_frame(seq, timestamp_us, data, width, height, is_keyframe)
}

// ---- reading ---------------------------------------------------------------

fn read_u16(buf: &[u8], at: u64) -> (r: Option<u16>)
    ensures
        r == word16(buf@, at as int),
{
    let len: u64 = buf.len() as u64;
    if at > len || len - at < 2 {
        None
    } else {
        Some(get_u16(buf, at as usize))
    }
}

fn read_u32(buf: &[u8], at: u64) -> (r: Option<u32>)
    ensures
        r == word32(buf@, at as int),
{
    let len: u64 = buf.len() as u64;
    if at > len || len - at < 4 {
        None
    } else {
        Some(get_u32(buf, at as usize))
    }
}

fn read_u64(buf: &[u8], at: u64) -> (r: Option<u64>)
    ensures
        r == word64(buf@, at as int),
{
    let len: u64 = buf.len() as u64;
    if at > len || len - at < 8 {
        None
    } else {
        Some(get_u64(buf, at as usize))
    }
}

struct Root {
    table: u64,
    vtable: u64,
    vtable_size: u64,
}

impl Root {
    spec fn model(self) -> TableRef {
        TableRef {
            table: self.table as int,
            vtable: self.vtable as int,
            vtable_size: self.vtable_size as int,
        }
    }

    spec fn small(self) -> bool {
        self.table <= u32::MAX && self.vtable <= 2 * u32::MAX && self.vtable_size <= u16::MAX
    }

    fn find(buf: &[u8]) -> (r: Option<Root>)
        ensures
            match r {
                Some(root) => root_table(buf@) == Some(root.model()) && root.small(),
                None => root_table(buf@) is None,
            },
    {
        let table: u32 = match read_u32(buf, 0) {
            Some(v) => v,
            None => return None,
        };
        let offset: u32 = match read_u32(buf, table as u64) {
            Some(v) => v,
            None => return None,
        };
        let vtable: u64 = if offset < 0x8000_0000 {
            if offset > table {
                return None;
            }
            (table - offset) as u64
        } else {
            table as u64 + (0x1_0000_0000u64 - offset as u64)
        };
        match read_u16(buf, vtable) {
            Some(size) => Some(Root { table: table as u64, vtable, vtable_size: size as u64 }),
            None => None,
        }
    }

    fn place(&self, buf: &[u8], slot: u16) -> (r: Option<u64>)
        requires
            self.small(),
        ensures
            match r {
                Some(at) => field_place(buf@, self.model(), slot as int) == Some(at as int) && at
                    <= 0x1_0001_0000,
                None => field_place(buf@, self.model(), slot as int) is None,
            },
    {
        if slot as u64 + 2 > self.vtable_size {
            return None;
        }
        match read_u16(buf, self.vtable + slot as u64) {
            None => None,
            Some(rel) => if rel == 0 {
                None
            } else {
                Some(self.table + rel as u64)
            },
        }
    }

    fn u32_field(&self, buf: &[u8], slot: u16) -> (r: Option<u32>)
        requires
            self.small(),
        ensures
            r == field32(buf@, self.model(), slot as int),
    {
        match self.place(buf, slot) {
            Some(at) => read_u32(buf, at),
            None => Some(0),
        }
    }

    fn u64_field(&self, buf: &[u8], slot: u16) -> (r: Option<u64>)
        requires
            self.small(),
        ensures
            r == field64(buf@, self.model(), slot as int),
    {
        match self.place(buf, slot) {
            Some(at) => read_u64(buf, at),
            None => Some(0),
        }
    }

    fn u8_field(&self, buf: &[u8], slot: u16) -> (r: Option<u8>)
        requires
            self.small(),
        ensures
            r == field8(buf@, self.model(), slot as int),
    {
        match self.place(buf, slot) {
            Some(at) => if at < buf.len() as u64 {
                Some(buf[at as usize])
            } else {
                None
            },
            None => Some(0),
        }
    }

    fn bytes_field(&self, buf: &[u8], slot: u16) -> (r: Option<Vec<u8>>)
        requires
            self.small(),
        ensures
            match r {
                Some(v) => field_bytes(buf@, self.model(), slot as int) == Some(v@),
                None => field_bytes(buf@, self.model(), slot as int) is None,
            },
    {
        let at: u64 = match self.place(buf, slot) {
            Some(at) => at,
            None => return None,
        };
        let start: u64 = match read_u32(buf, at) {
            Some(offset) => at + offset as u64,
            None => return None,
        };
        let len: u64 = match read_u32(buf, start) {
            Some(len) => len as u64,
            None => return None,
        };
        let end: u64 = start + 4 + len;
        if end > buf.len() as u64 {
            return None;
        }
        Some(slice_to_vec(slice_subrange(buf, (start + 4) as usize, end as usize)))
    }
}

/// Reads a frame packet. Every read is bounds-checked; malformed input gives
/// `None`.
pub fn parse_frame_packet(buf: &[u8]) -> (r: Option<ParsedFramePacket>)
    ensures
        match r {
            Some(packet) => frame_packet_of(buf@) == Some(packet@),
            None => frame_packet_of(buf@) is None,
        },
{
    let root = match Root::find(buf) {
        Some(root) => root,
        None => return None,
    };
    let seq: u32 = match root.u32_field(buf, VT_SEQ) {
        Some(v) => v,
        None => return None,
    };
    let timestamp_us: u64 = match root.u64_field(buf, VT_TIMESTAMP_US) {
        Some(v) => v,
        None => return None,
    };
    let width: u32 = match root.u32_field(buf, VT_WIDTH) {
        Some(v) => v,
        None => return None,
    };
    let height: u32 = match root.u32_field(buf, VT_HEIGHT) {
        Some(v) => v,
        None => return None,
    };
    let key: u8 = match root.u8_field(buf, VT_IS_KEYFRAME) {
        Some(v) => v,
        None => return None,
    };
    let data = match root.bytes_field(buf, VT_DATA) {
        Some(v) => v,
        None => return None,
    };
    Some(ParsedFramePacket { seq, timestamp_us, data, width, height, is_keyframe: key != 0 })
}

} // verus!
