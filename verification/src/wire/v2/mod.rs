//! The wire protocol, version 2.
//!
//! Every datagram, in both directions, starts with the same 8-byte prefix (all
//! integers little-endian):
//!
//! ```text
//! [0..2]  magic        u16  = 0x4D45 (the bytes "EM": 0x45 0x4D)
//! [2]     version      u8   = 2
//! [3]     packet_type  u8   (see PacketType)
//! [4]     flags        u8   type-specific (media: bit 0 = keyframe)
//! [5]     reserved     u8   = 0 on send; ignored on receive
//! [6..8]  payload_len  u16  bytes following the fixed header
//! ```
//!
//! A version 1 hello starts with the bytes "ET" (`ETERNALHELLO`), so the two
//! versions diverge at byte 1 and can share one socket.
//!
//! Media datagrams extend the prefix to a 32-byte header ([`media`]); control
//! datagrams extend it to a 16-byte header ([`control`]) and one message.

use vstd::prelude::*;
use vstd::string::StringExecFns;

use crate::bytes;
use crate::bytes::get_u16;
use crate::text;
use crate::text::{push_decimal, push_hex};

pub mod control;
pub mod media;

verus! {

/// "EM" as a little-endian word (bytes 0x45, 0x4D on the wire).
pub const MAGIC: u16 = 0x4D45;

/// Protocol version carried in every datagram.
pub const VERSION: u8 = 2;

/// Size of the common prefix shared by all datagrams.
pub const PREFIX_SIZE: usize = 8;

/// Maximum size of any datagram that is sent.
pub const MAX_DGRAM_SIZE: usize = 1400;

/// First bytes of a version 1 hello, kept so that an old client can be told to
/// update instead of being met with silence.
pub const LEGACY_HELLO_MAGIC: [u8; 12] = [
    0x45,
    0x54,
    0x45,
    0x52,
    0x4E,
    0x41,
    0x4C,
    0x48,
    0x45,
    0x4C,
    0x4C,
    0x4F,
];

/// Datagram type registry. The wire values are stable: never renumber.
#[derive(Debug, Clone, Copy, PartialEq, Eq, Structural)]
pub enum PacketType {
    Media,
    /// Reserved for forward-error-correction parity. Not sent.
    MediaFec,
    Hello2,
    HelloAck,
    Heartbeat,
    Bye,
    KeyframeRequest,
    ReceiverReport,
    Ping,
    Pong,
    StreamConfig,
    InputEvent,
    /// Reserved. Not sent.
    Error,
}

/// The wire value of a packet type.
pub open spec fn packet_type_byte(t: PacketType) -> u8 {
    match t {
        PacketType::Media => 0x01,
        PacketType::MediaFec => 0x02,
        PacketType::Hello2 => 0x10,
        PacketType::HelloAck => 0x11,
        PacketType::Heartbeat => 0x12,
        PacketType::Bye => 0x13,
        PacketType::KeyframeRequest => 0x14,
        PacketType::ReceiverReport => 0x15,
        PacketType::Ping => 0x16,
        PacketType::Pong => 0x17,
        PacketType::StreamConfig => 0x18,
        PacketType::InputEvent => 0x20,
        PacketType::Error => 0x7F,
    }
}

/// Whether a byte is registered as a packet type.
pub open spec fn is_packet_type_byte(b: u8) -> bool {
    exists|t: PacketType| packet_type_byte(t) == b
}

/// The packet type that a registered byte stands for.
pub open spec fn packet_type_from(b: u8) -> PacketType {
    choose|t: PacketType| packet_type_byte(t) == b
}

impl PacketType {
    /// The wire value of this type.
    pub fn to_u8(self) -> (value: u8)
        ensures
            value == packet_type_byte(self),
    {
        match self {
            PacketType::Media => 0x01,
            PacketType::MediaFec => 0x02,
            PacketType::Hello2 => 0x10,
            PacketType::HelloAck => 0x11,
            PacketType::Heartbeat => 0x12,
            PacketType::Bye => 0x13,
            PacketType::KeyframeRequest => 0x14,
            PacketType::ReceiverReport => 0x15,
            PacketType::Ping => 0x16,
            PacketType::Pong => 0x17,
            PacketType::StreamConfig => 0x18,
            PacketType::InputEvent => 0x20,
            PacketType::Error => 0x7F,
        }
    }

    /// The type with this wire value, if it is registered.
    pub fn from_u8(value: u8) -> (t: Option<PacketType>)
        ensures
            t is Some <==> is_packet_type_byte(value),
            t matches Some(p) ==> packet_type_byte(p) == value,
    {
        let t = match value {
            0x01 => PacketType::Media,
            0x02 => PacketType::MediaFec,
            0x10 => PacketType::Hello2,
            0x11 => PacketType::HelloAck,
            0x12 => PacketType::Heartbeat,
            0x13 => PacketType::Bye,
            0x14 => PacketType::KeyframeRequest,
            0x15 => PacketType::ReceiverReport,
            0x16 => PacketType::Ping,
            0x17 => PacketType::Pong,
            0x18 => PacketType::StreamConfig,
            0x20 => PacketType::InputEvent,
            0x7F => PacketType::Error,
            _ => return None,
        };
        assert(packet_type_byte(t) == value);
        Some(t)
    }
}

/// Distinct packet types have distinct wire values.
pub proof fn packet_types_are_told_apart(a: PacketType, b: PacketType)
    ensures
        packet_type_byte(a) == packet_type_byte(b) ==> a == b,
{
}

/// Why a datagram failed to parse.
#[derive(Debug, Clone, PartialEq, Eq)]
pub enum WireError {
    /// Shorter than the fixed header for its (claimed) type, or than the
    /// fields of its body.
    Truncated,
    /// Magic bytes are not "EM".
    BadMagic,
    /// Version byte is not [`VERSION`].
    UnsupportedVersion(u8),
    /// Unknown packet type byte.
    UnknownType(u8),
    /// `payload_len` does not equal the datagram length less the header.
    LengthMismatch,
    /// A field holds a value that the protocol forbids.
    InvalidField(&'static str),
}

/// What an error says.
pub open spec fn description(e: WireError) -> Seq<char> {
    match e {
        WireError::Truncated => "datagram truncated"@,
        WireError::BadMagic => "bad magic"@,
        WireError::UnsupportedVersion(v) => "unsupported protocol version "@ + text::decimal(
            v as nat,
        ),
        WireError::UnknownType(t) => "unknown packet type 0x"@ + text::hex_byte(t),
        WireError::LengthMismatch => "payload length mismatch"@,
        WireError::InvalidField(name) => "invalid field: "@ + name@,
    }
}

impl WireError {
    /// The error in words.
    pub fn describe(&self) -> (s: String)
        ensures
            s@ == description(*self),
    {
        match self {
            WireError::Truncated => "datagram truncated".to_owned(),
            WireError::BadMagic => "bad magic".to_owned(),
            WireError::UnsupportedVersion(v) => {
                let mut s = "unsupported protocol version ".to_owned();
                push_decimal(&mut s, *v as u64);
                s
            },
            WireError::UnknownType(t) => {
                let mut s = "unknown packet type 0x".to_owned();
                push_hex(&mut s, *t);
                s
            },
            WireError::LengthMismatch => "payload length mismatch".to_owned(),
            WireError::InvalidField(name) => {
                let mut s = "invalid field: ".to_owned();
                s.append(name);
                s
            },
        }
    }
}

/// The common 8-byte prefix, decoded.
#[derive(Debug, Clone, Copy, PartialEq, Eq, Structural)]
pub struct CommonPrefix {
    pub packet_type: PacketType,
    pub flags: u8,
    pub payload_len: u16,
}

/// The eight bytes of a prefix.
pub open spec fn prefix_bytes(p: CommonPrefix) -> Seq<u8> {
    bytes::bytes16(MAGIC) + seq![VERSION, packet_type_byte(p.packet_type), p.flags, 0u8] + bytes::bytes16(
        p.payload_len,
    )
}

/// Whether `d` starts with the prefix `p`; the reserved byte may hold anything.
pub open spec fn has_prefix(d: Seq<u8>, p: CommonPrefix) -> bool {
    &&& d.len() >= PREFIX_SIZE
    &&& bytes::le16(d, 0) == MAGIC
    &&& d[2] == VERSION
    &&& d[3] == packet_type_byte(p.packet_type)
    &&& d[4] == p.flags
    &&& bytes::le16(d, 6) == p.payload_len
}

/// Why `d` has no prefix, if it has none.
pub open spec fn prefix_error(d: Seq<u8>) -> Option<WireError> {
    if d.len() < PREFIX_SIZE {
        Some(WireError::Truncated)
    } else if bytes::le16(d, 0) != MAGIC {
        Some(WireError::BadMagic)
    } else if d[2] != VERSION {
        Some(WireError::UnsupportedVersion(d[2]))
    } else if !is_packet_type_byte(d[3]) {
        Some(WireError::UnknownType(d[3]))
    } else {
        None
    }
}

impl CommonPrefix {
    /// Writes the prefix into the first eight bytes of `buf`.
    pub fn encode_into(self, buf: &mut [u8])
        requires
            old(buf)@.len() >= PREFIX_SIZE,
        ensures
            final(buf)@ == prefix_bytes(self) + old(buf)@.skip(PREFIX_SIZE as int),
    {
        assert(buf@.len() == buf.len());
        buf[0] = (MAGIC % 256) as u8;
        buf[1] = (MAGIC / 256) as u8;
        buf[2] = VERSION;
        buf[3] = self.packet_type.to_u8();
        buf[4] = self.flags;
        buf[5] = 0;
        buf[6] = (self.payload_len % 256) as u8;
        buf[7] = (self.payload_len / 256) as u8;
        assert(buf@ =~= prefix_bytes(self) + old(buf)@.skip(PREFIX_SIZE as int));
    }

    /// Parses the prefix from the front of a datagram. `payload_len` is not
    /// held against the datagram length: the header size differs per type.
    pub fn decode(datagram: &[u8]) -> (r: Result<CommonPrefix, WireError>)
        ensures
            r is Ok <==> prefix_error(datagram@) is None,
            r matches Ok(p) ==> has_prefix(datagram@, p),
            r matches Err(e) ==> prefix_error(datagram@) == Some(e),
    {
        if datagram.len() < PREFIX_SIZE {
            return Err(WireError::Truncated);
        }
        let magic: u16 = get_u16(datagram, 0);
        if magic != MAGIC {
            return Err(WireError::BadMagic);
        }
        if datagram[2] != VERSION {
            return Err(WireError::UnsupportedVersion(datagram[2]));
        }
        match PacketType::from_u8(datagram[3]) {
            Some(packet_type) => Ok(
                CommonPrefix {
                    packet_type,
                    flags: datagram[4],
                    payload_len: get_u16(datagram, 6),
                },
            ),
            None => Err(WireError::UnknownType(datagram[3])),
        }
    }
}

/// A registered byte stands for the one type with that wire value.
pub proof fn packet_type_from_is_inverse(t: PacketType)
    ensures
        packet_type_from(packet_type_byte(t)) == t,
{
    packet_types_are_told_apart(packet_type_from(packet_type_byte(t)), t);
}

/// A datagram has at most one prefix.
pub proof fn prefix_is_unique(d: Seq<u8>, p: CommonPrefix, q: CommonPrefix)
    requires
        has_prefix(d, p),
        has_prefix(d, q),
    ensures
        p == q,
{
    packet_types_are_told_apart(p.packet_type, q.packet_type);
}

/// Whatever follows an encoded prefix, decoding finds that prefix.
pub proof fn prefix_round_trip(p: CommonPrefix, rest: Seq<u8>)
    ensures
        prefix_error(prefix_bytes(p) + rest) is None,
        has_prefix(prefix_bytes(p) + rest, p),
{
    let d = prefix_bytes(p) + rest;
    assert(d.subrange(0, 2) =~= bytes::bytes16(MAGIC));
    assert(d.subrange(6, 8) =~= bytes::bytes16(p.payload_len));
    bytes::le16_reads_bytes16(d, 0, MAGIC);
    bytes::le16_reads_bytes16(d, 6, p.payload_len);
    assert(packet_type_byte(p.packet_type) == d[3]);
}

/// Coarse routing of an inbound datagram, before any deeper parse.
#[derive(Debug, Clone, Copy, PartialEq, Eq, Structural)]
pub enum Classified {
    /// A media fragment, for the reassembler.
    Media { flags: u8 },
    /// A control datagram, for the control parser.
    Control(PacketType),
    /// A version 1 registration from an old client.
    LegacyHello,
    /// Not ours, or corrupt: drop.
    Unknown,
}

/// Whether `d` starts with the version 1 hello.
pub open spec fn is_legacy_hello(d: Seq<u8>) -> bool {
    d.len() >= 12 && d.take(12) == LEGACY_HELLO_MAGIC@
}

/// Whether packets of this type carry media.
pub open spec fn is_media_type(t: PacketType) -> bool {
    t == PacketType::Media || t == PacketType::MediaFec
}

/// How a datagram is routed.
pub open spec fn classified_as(d: Seq<u8>, c: Classified) -> bool {
    match c {
        Classified::LegacyHello => is_legacy_hello(d),
        Classified::Media { flags } => exists|p: CommonPrefix| #[trigger]
            has_prefix(d, p) && is_media_type(p.packet_type) && p.flags == flags,
        Classified::Control(t) => !is_media_type(t) && exists|p: CommonPrefix| #[trigger]
            has_prefix(d, p) && p.packet_type == t,
        Classified::Unknown => !is_legacy_hello(d) && prefix_error(d) is Some,
    }
}

/// Routes a raw datagram.
pub fn classify(datagram: &[u8]) -> (c: Classified)
    ensures
        classified_as(datagram@, c),
{
    if starts_with_legacy_hello(datagram) {
        return Classified::LegacyHello;
    }
    match CommonPrefix::decode(datagram) {
        Ok(prefix) => {
            assert(has_prefix(datagram@, prefix));
            match prefix.packet_type {
                PacketType::Media | PacketType::MediaFec => Classified::Media {
                    flags: prefix.flags,
                },
                other => Classified::Control(other),
            }
        },
        Err(_) => Classified::Unknown,
    }
}

fn starts_with_legacy_hello(datagram: &[u8]) -> (b: bool)
    ensures
        b == is_legacy_hello(datagram@),
{
    if datagram.len() < 12 {
        return false;
    }
    let magic: [u8; 12] = LEGACY_HELLO_MAGIC;
    let mut i: usize = 0;
    while i < 12
        invariant
            i <= 12,
            magic@ == LEGACY_HELLO_MAGIC@,
            datagram@.len() >= 12,
            forall|k: int| 0 <= k < i ==> datagram@[k] == LEGACY_HELLO_MAGIC@[k],
        decreases 12 - i,
    {
        if datagram[i] != magic[i] {
            assert(datagram@.take(12)[i as int] != LEGACY_HELLO_MAGIC@[i as int]);
            return false;
        }
        i += 1;
    }
    assert(datagram@.take(12) =~= LEGACY_HELLO_MAGIC@);
    true
}

/// A version 1 hello never carries a version 2 prefix: the two protocols can
/// share one socket.
pub proof fn versions_are_told_apart(d: Seq<u8>)
    requires
        is_legacy_hello(d),
    ensures
        prefix_error(d) == Some(WireError::BadMagic),
{
    assert(d[1] == d.take(12)[1]);
    assert(d[0] == d.take(12)[0]);
    assert(LEGACY_HELLO_MAGIC@[0] == 0x45 && LEGACY_HELLO_MAGIC@[1] == 0x54);
}

/// Every datagram is routed one way only.
pub proof fn classification_is_unique(d: Seq<u8>, a: Classified, b: Classified)
    requires
        classified_as(d, a),
        classified_as(d, b),
    ensures
        a == b,
{
    if is_legacy_hello(d) {
        versions_are_told_apart(d);
    }
    assert forall|p: CommonPrefix, q: CommonPrefix| has_prefix(d, p) && has_prefix(d, q) implies p
        == q by {
        prefix_is_unique(d, p, q);
    }
    assert forall|p: CommonPrefix| has_prefix(d, p) implies prefix_error(d) is None by {
        assert(packet_type_byte(p.packet_type) == d[3]);
    }
}

} // verus!
