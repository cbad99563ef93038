//! Media datagrams: one fragment of one encoded video access unit.
//!
//! 32 bytes, little-endian, then `payload_len` bytes of raw Annex B video (a
//! chunk of the access unit, split at arbitrary byte boundaries):
//!
//! ```text
//! [0..8]   common prefix        (packet_type = 0x01, flags bit 0 = keyframe)
//! [8..12]  session_id    u32    assigned by the host; nonzero
//! [12..16] stream_epoch  u32    per-pipeline-run id; nonzero
//! [16..20] frame_seq     u32    per-epoch access-unit counter
//! [20..22] frag_index    u16
//! [22..24] frag_count    u16    >= 1
//! [24..32] capture_ts_us u64    host monotonic microseconds
//! ```
//!
//! Every fragment repeats the whole header, so any fragment describes its
//! frame completely.

use vstd::prelude::*;
use vstd::slice::slice_subrange;

use crate::wire::v2;
use super::{
    classify, Classified, CommonPrefix, PacketType, WireError, MAX_DGRAM_SIZE, PREFIX_SIZE,
};
use crate::bytes;
use crate::bytes::{get_u16, get_u32, get_u64, push_all, push_u16, push_u32, push_u64, put_bytes};

verus! {

/// Size of the full media header (common prefix counted in).
pub const MEDIA_HEADER_SIZE: usize = 32;

/// Largest payload chunk that fits a media datagram.
pub const MAX_MEDIA_PAYLOAD: usize = MAX_DGRAM_SIZE - MEDIA_HEADER_SIZE;

/// Hard cap on fragments per frame: 4 MiB of payload.
pub const MAX_FRAG_COUNT: u16 = 3066;

/// Flag bit 0: the access unit of this fragment is a random-access point.
pub const MEDIA_FLAG_KEYFRAME: u8 = 1;

/// The header of one media datagram.
#[derive(Debug, Clone, Copy, PartialEq, Eq, Structural)]
pub struct MediaHeader {
    pub session_id: u32,
    pub stream_epoch: u32,
    pub frame_seq: u32,
    pub frag_index: u16,
    pub frag_count: u16,
    pub is_keyframe: bool,
    pub capture_ts_us: u64,
    /// Length of the payload chunk following the header.
    pub payload_len: u16,
}

/// The prefix that a media header puts in front.
pub open spec fn media_prefix(h: MediaHeader) -> CommonPrefix {
    CommonPrefix {
        packet_type: PacketType::Media,
        flags: if h.is_keyframe {
            MEDIA_FLAG_KEYFRAME
        } else {
            0
        },
        payload_len: h.payload_len,
    }
}

/// The 32 bytes of a media header.
pub open spec fn media_header_bytes(h: MediaHeader) -> Seq<u8> {
    v2::prefix_bytes(media_prefix(h)) + bytes::bytes32(h.session_id) + bytes::bytes32(h.stream_epoch) + bytes::bytes32(
        h.frame_seq,
    ) + bytes::bytes16(h.frag_index) + bytes::bytes16(h.frag_count) + bytes::bytes64(h.capture_ts_us)
}

/// The header that the fields of a datagram spell.
pub open spec fn media_header_of(d: Seq<u8>) -> MediaHeader {
    MediaHeader {
        session_id: bytes::le32(d, 8),
        stream_epoch: bytes::le32(d, 12),
        frame_seq: bytes::le32(d, 16),
        frag_index: bytes::le16(d, 20),
        frag_count: bytes::le16(d, 22),
        is_keyframe: d[4] % 2 == 1,
        capture_ts_us: bytes::le64(d, 24),
        payload_len: bytes::le16(d, 6),
    }
}

/// What the protocol demands of a media header.
pub open spec fn media_header_ok(h: MediaHeader) -> bool {
    &&& 1 <= h.frag_count <= MAX_FRAG_COUNT
    &&& h.frag_index < h.frag_count
    &&& h.session_id != 0
    &&& h.stream_epoch != 0
}

/// Why `d` is no media datagram, if it is none.
pub open spec fn media_error(d: Seq<u8>) -> Option<WireError> {
    let h = media_header_of(d);
    if v2::prefix_error(d) is Some {
        v2::prefix_error(d)
    } else if d[3] != 0x01 {
        Some(WireError::InvalidField("packet_type"))
    } else if d.len() < MEDIA_HEADER_SIZE {
        Some(WireError::Truncated)
    } else if h.payload_len != d.len() - MEDIA_HEADER_SIZE {
        Some(WireError::LengthMismatch)
    } else if h.frag_count == 0 || h.frag_count > MAX_FRAG_COUNT {
        Some(WireError::InvalidField("frag_count"))
    } else if h.frag_index >= h.frag_count {
        Some(WireError::InvalidField("frag_index"))
    } else if h.session_id == 0 {
        Some(WireError::InvalidField("session_id"))
    } else if h.stream_epoch == 0 {
        Some(WireError::InvalidField("stream_epoch"))
    } else {
        None
    }
}

impl MediaHeader {
    /// Writes the header into the first 32 bytes of `buf`.
    pub fn encode_into(self, buf: &mut [u8])
        requires
            old(buf)@.len() >= MEDIA_HEADER_SIZE,
        ensures
            final(buf)@ == media_header_bytes(self) + old(buf)@.skip(MEDIA_HEADER_SIZE as int),
    {
        let header = self.to_bytes();
        put_bytes(buf, 0, &header);
        assert(buf@ =~= media_header_bytes(self) + old(buf)@.skip(MEDIA_HEADER_SIZE as int));
    }

    /// The header as bytes.
    fn to_bytes(self) -> (bytes: Vec<u8>)
        ensures
            bytes@ == media_header_bytes(self),
            bytes@.len() == MEDIA_HEADER_SIZE,
    {
        let prefix = CommonPrefix {
            packet_type: PacketType::Media,
            flags: if self.is_keyframe {
                MEDIA_FLAG_KEYFRAME
            } else {
                0
            },
            payload_len: self.payload_len,
        };
        let mut bytes: Vec<u8> = vec![0; PREFIX_SIZE];
        prefix.encode_into(&mut bytes);
        assert(bytes@ =~= v2::prefix_bytes(media_prefix(self)));
        push_u32(&mut bytes, self.session_id);
        push_u32(&mut bytes, self.stream_epoch);
        push_u32(&mut bytes, self.frame_seq);
        push_u16(&mut bytes, self.frag_index);
        push_u16(&mut bytes, self.frag_count);
        push_u64(&mut bytes, self.capture_ts_us);
        bytes
    }

    /// Parses and validates a media datagram, returning the header and the
    /// payload. Whatever violates the protocol is rejected, so nothing
    /// downstream has to check it again.
    pub fn decode(datagram: &[u8]) -> (r: Result<(MediaHeader, &[u8]), WireError>)
        ensures
            r is Ok <==> media_error(datagram@) is None,
            r matches Ok((h, payload)) ==> {
                &&& h == media_header_of(datagram@)
                &&& media_header_ok(h)
                &&& payload@ == datagram@.skip(MEDIA_HEADER_SIZE as int)
                &&& payload@.len() == h.payload_len
            },
            r matches Err(e) ==> media_error(datagram@) == Some(e),
    {
        let prefix = match CommonPrefix::decode(datagram) {
            Ok(prefix) => prefix,
            Err(e) => return Err(e),
        };
        match prefix.packet_type {
            PacketType::Media => {},
            _ => return Err(WireError::InvalidField("packet_type")),
        }
        if datagram.len() < MEDIA_HEADER_SIZE {
            return Err(WireError::Truncated);
        }
        if prefix.payload_len as usize != datagram.len() - MEDIA_HEADER_SIZE {
            return Err(WireError::LengthMismatch);
        }
        let frag_index: u16 = get_u16(datagram, 20);
        let frag_count: u16 = get_u16(datagram, 22);
        if frag_count == 0 || frag_count > MAX_FRAG_COUNT {
            return Err(WireError::InvalidField("frag_count"));
        }
        if frag_index >= frag_count {
            return Err(WireError::InvalidField("frag_index"));
        }
        let session_id: u32 = get_u32(datagram, 8);
        if session_id == 0 {
            return Err(WireError::InvalidField("session_id"));
        }
        let stream_epoch: u32 = get_u32(datagram, 12);
        if stream_epoch == 0 {
            return Err(WireError::InvalidField("stream_epoch"));
        }
        let header = MediaHeader {
            session_id,
            stream_epoch,
            frame_seq: get_u32(datagram, 16),
            frag_index,
            frag_count,
            is_keyframe: prefix.flags % 2 == 1,
            capture_ts_us: get_u64(datagram, 24),
            payload_len: prefix.payload_len,
        };
        let payload = slice_subrange(datagram, MEDIA_HEADER_SIZE, datagram.len());
        Ok((header, payload))
    }
}

/// Decoding an encoded datagram gives its header and payload back.
#[verifier::spinoff_prover]
#[verifier::rlimit(40)]
pub proof fn media_round_trip(h: MediaHeader, payload: Seq<u8>)
    requires
        media_header_ok(h),
        payload.len() == h.payload_len,
    ensures
        media_error(media_header_bytes(h) + payload) is None,
        media_header_of(media_header_bytes(h) + payload) == h,
        (media_header_bytes(h) + payload).skip(MEDIA_HEADER_SIZE as int) == payload,
{
    let d = media_header_bytes(h) + payload;
    let p = media_prefix(h);
    assert(d =~= v2::prefix_bytes(p) + d.skip(8));
    v2::prefix_round_trip(p, d.skip(8));
    assert(d.subrange(8, 12) =~= bytes::bytes32(h.session_id));
    assert(d.subrange(12, 16) =~= bytes::bytes32(h.stream_epoch));
    assert(d.subrange(16, 20) =~= bytes::bytes32(h.frame_seq));
    assert(d.subrange(20, 22) =~= bytes::bytes16(h.frag_index));
    assert(d.subrange(22, 24) =~= bytes::bytes16(h.frag_count));
    assert(d.subrange(24, 32) =~= bytes::bytes64(h.capture_ts_us));
    bytes::le32_reads_bytes32(d, 8, h.session_id);
    bytes::le32_reads_bytes32(d, 12, h.stream_epoch);
    bytes::le32_reads_bytes32(d, 16, h.frame_seq);
    bytes::le16_reads_bytes16(d, 20, h.frag_index);
    bytes::le16_reads_bytes16(d, 22, h.frag_count);
    bytes::le64_reads_bytes64(d, 24, h.capture_ts_us);
    assert(d.skip(MEDIA_HEADER_SIZE as int) =~= payload);
}

/// How many fragments an access unit of `len` bytes is split into: as many
/// full datagrams as it takes, and one even for an empty access unit.
pub open spec fn fragment_total(len: int) -> int {
    if len == 0 {
        1
    } else {
        (len + MAX_MEDIA_PAYLOAD - 1) / MAX_MEDIA_PAYLOAD as int
    }
}

/// The chunk of `payload` that fragment `i` carries.
pub open spec fn fragment_chunk(payload: Seq<u8>, i: int) -> Seq<u8> {
    let start = i * MAX_MEDIA_PAYLOAD;
    let end = if start + MAX_MEDIA_PAYLOAD <= payload.len() {
        start + MAX_MEDIA_PAYLOAD
    } else {
        payload.len() as int
    };
    payload.subrange(start, end)
}

/// The header of fragment `i`: the template, with the fields that differ from
/// fragment to fragment filled in.
pub open spec fn fragment_header(template: MediaHeader, payload: Seq<u8>, i: int) -> MediaHeader {
    MediaHeader {
        frag_index: i as u16,
        frag_count: fragment_total(payload.len() as int) as u16,
        payload_len: fragment_chunk(payload, i).len() as u16,
        ..template
    }
}

/// The datagram of fragment `i`.
pub open spec fn fragment_datagram(template: MediaHeader, payload: Seq<u8>, i: int) -> Seq<u8> {
    media_header_bytes(fragment_header(template, payload, i)) + fragment_chunk(payload, i)
}

/// Splits one encoded access unit into ready-to-send datagrams, in order.
/// Fails if and only if it takes more than [`MAX_FRAG_COUNT`] of them.
pub fn fragment_access_unit(header_template: MediaHeader, payload: &[u8]) -> (r: Result<
    Vec<Vec<u8>>,
    WireError,
>)
    ensures
        r is Ok <==> fragment_total(payload@.len() as int) <= MAX_FRAG_COUNT,
        r matches Ok(datagrams) ==> {
            &&& datagrams@.len() == fragment_total(payload@.len() as int)
            &&& forall|i: int|
                0 <= i < datagrams@.len() ==> (#[trigger] datagrams@[i])@ == fragment_datagram(
                    header_template,
                    payload@,
                    i,
                )
        },
        r matches Err(e) ==> e == WireError::InvalidField("frag_count"),
{
    let len: usize = payload.len();
    let mut total: usize = len / MAX_MEDIA_PAYLOAD;
    if len % MAX_MEDIA_PAYLOAD != 0 || len == 0 {
        total += 1;
    }
    assert(total == fragment_total(len as int));
    if total > MAX_FRAG_COUNT as usize {
        return Err(WireError::InvalidField("frag_count"));
    }
    let mut datagrams: Vec<Vec<u8>> = Vec::new();
    let mut index: usize = 0;
    while index < total
        invariant
            index <= total,
            total == fragment_total(len as int),
            total <= MAX_FRAG_COUNT,
            len == payload@.len(),
            datagrams@.len() == index,
            forall|i: int|
                0 <= i < index ==> (#[trigger] datagrams@[i])@ == fragment_datagram(
                    header_template,
                    payload@,
                    i,
                ),
        decreases total - index,
    {
        let start: usize = index * MAX_MEDIA_PAYLOAD;
        let end: usize = if len - start >= MAX_MEDIA_PAYLOAD {
            start + MAX_MEDIA_PAYLOAD
        } else {
            len
        };
        let chunk = slice_subrange(payload, start, end);
        let header = MediaHeader {
            frag_index: index as u16,
            frag_count: total as u16,
            payload_len: (end - start) as u16,
            ..header_template
        };
        let mut datagram = header.to_bytes();
        push_all(&mut datagram, chunk);
        assert(header == fragment_header(header_template, payload@, index as int));
        datagrams.push(datagram);
        index += 1;
    }
    Ok(datagrams)
}

/// Every fragment of an access unit is a datagram that decodes to its own
/// header and chunk, and fits the maximum datagram size.
pub proof fn fragments_decode(template: MediaHeader, payload: Seq<u8>, i: int)
    requires
        template.session_id != 0,
        template.stream_epoch != 0,
        fragment_total(payload.len() as int) <= MAX_FRAG_COUNT,
        0 <= i < fragment_total(payload.len() as int),
    ensures
        fragment_datagram(template, payload, i).len() <= MAX_DGRAM_SIZE,
        media_error(fragment_datagram(template, payload, i)) is None,
        media_header_of(fragment_datagram(template, payload, i)) == fragment_header(
            template,
            payload,
            i,
        ),
        fragment_datagram(template, payload, i).skip(MEDIA_HEADER_SIZE as int) == fragment_chunk(
            payload,
            i,
        ),
{
    let h = fragment_header(template, payload, i);
    let chunk = fragment_chunk(payload, i);
    chunk_bounds(payload, i);
    assert(h.frag_index == i && h.frag_count == fragment_total(payload.len() as int));
    media_round_trip(h, chunk);
    media_header_length(h);
}

proof fn chunk_bounds(payload: Seq<u8>, i: int)
    requires
        0 <= i < fragment_total(payload.len() as int),
    ensures
        fragment_chunk(payload, i).len() <= MAX_MEDIA_PAYLOAD,
{
    let len = payload.len() as int;
    if len > 0 {
        assert(i + 1 <= (len + 1367) / 1368);
        assert(i * 1368 < len);
    }
}

proof fn media_header_length(h: MediaHeader)
    ensures
        media_header_bytes(h).len() == MEDIA_HEADER_SIZE,
{
}

/// The first `n` chunks, joined.
pub open spec fn joined_chunks(payload: Seq<u8>, n: int) -> Seq<u8>
    decreases n,
{
    if n <= 0 {
        Seq::empty()
    } else {
        joined_chunks(payload, n - 1) + fragment_chunk(payload, n - 1)
    }
}

/// The chunks of all fragments, joined in order, are the access unit.
pub proof fn chunks_join_to_payload(payload: Seq<u8>)
    ensures
        joined_chunks(payload, fragment_total(payload.len() as int)) == payload,
{
    let n = fragment_total(payload.len() as int);
    joined_chunks_prefix(payload, n);
    assert(payload.take(payload.len() as int) =~= payload);
}

proof fn joined_chunks_prefix(payload: Seq<u8>, n: int)
    requires
        0 <= n <= fragment_total(payload.len() as int),
    ensures
        joined_chunks(payload, n) == payload.take(
            if n * MAX_MEDIA_PAYLOAD <= payload.len() {
                n * MAX_MEDIA_PAYLOAD
            } else {
                payload.len() as int
            },
        ),
    decreases n,
{
    if n > 0 {
        joined_chunks_prefix(payload, n - 1);
    }
    assert(joined_chunks(payload, n) =~= payload.take(
        if n * MAX_MEDIA_PAYLOAD <= payload.len() {
            n * MAX_MEDIA_PAYLOAD
        } else {
            payload.len() as int
        },
    ));
}

/// Whether this datagram is routed as media.
pub fn is_media_datagram(datagram: &[u8]) -> (b: bool)
    ensures
        b <==> exists|flags: u8| #[trigger]
            v2::classified_as(datagram@, Classified::Media { flags }),
{
    let c = classify(datagram);
    proof {
        assert forall|flags: u8| #[trigger]
            v2::classified_as(datagram@, Classified::Media { flags }) implies c
            == (Classified::Media { flags }) by {
            v2::classification_is_unique(datagram@, c, Classified::Media { flags });
        }
    }
    match c {
        Classified::Media { .. } => true,
        _ => false,
    }
}

/// A number that two bytes spell, the low one first.
pub open spec fn word_at(d: Seq<u8>, at: int) -> int {
    d[at] + 256 * d[at + 1]
}

/// What a media datagram is: it starts with the protocol's magic, version and
/// type, its length is the one that it says, it names a place among no more
/// fragments than a frame may have, and neither its session nor its epoch is
/// zero. Exactly such datagrams are accepted.
pub proof fn what_media_is(d: Seq<u8>)
    ensures
        media_error(d) is None <==> {
            &&& d.len() >= 32
            &&& d[0] == 0x45 && d[1] == 0x4D
            &&& d[2] == 2
            &&& d[3] == 1
            &&& word_at(d, 6) + 32 == d.len()
            &&& word_at(d, 20) < word_at(d, 22) <= MAX_FRAG_COUNT
            &&& d[8] != 0 || d[9] != 0 || d[10] != 0 || d[11] != 0
            &&& d[12] != 0 || d[13] != 0 || d[14] != 0 || d[15] != 0
        },
{
    if d.len() >= 8 && d[3] == 1 {
        assert(v2::packet_type_byte(PacketType::Media) == d[3]);
    }
}

/// The fragments of an access unit: each names its place and how many there
/// are, says otherwise what the template says, carries no more than a datagram
/// takes, and all but the last are full.
#[verifier::spinoff_prover]
#[verifier::rlimit(40)]
pub proof fn fragments_are_full_and_numbered(template: MediaHeader, payload: Seq<u8>, i: int)
    requires
        template.session_id != 0,
        template.stream_epoch != 0,
        fragment_total(payload.len() as int) <= MAX_FRAG_COUNT,
        0 <= i < fragment_total(payload.len() as int),
    ensures
        ({
            let n = fragment_total(payload.len() as int);
            let d = fragment_datagram(template, payload, i);
            let h = media_header_of(d);
            &&& (n - 1) * (MAX_DGRAM_SIZE - 32) < payload.len() || n == 1
            &&& payload.len() <= n * (MAX_DGRAM_SIZE - 32)
            &&& media_error(d) is None
            &&& h.frag_index == i
            &&& h.frag_count == n
            &&& h.session_id == template.session_id
            &&& h.stream_epoch == template.stream_epoch
            &&& h.frame_seq == template.frame_seq
            &&& h.is_keyframe == template.is_keyframe
            &&& h.capture_ts_us == template.capture_ts_us
            &&& i < n - 1 ==> d.len() == MAX_DGRAM_SIZE
            &&& forall|j: int|
                32 <= j < d.len() ==> #[trigger] d[j] == payload[i * (MAX_DGRAM_SIZE - 32) + j - 32]
        }),
{
    fragments_decode(template, payload, i);
    chunk_bounds(payload, i);
    let d = fragment_datagram(template, payload, i);
    let h = fragment_header(template, payload, i);
    media_header_length(h);
    let n = fragment_total(payload.len() as int);
    if payload.len() > 0 && i < n - 1 {
        assert((i + 1) * 1368 < payload.len());
    }
    let chunk = fragment_chunk(payload, i);
    assert(d.skip(32) =~= chunk);
    assert forall|j: int| 32 <= j < d.len() implies #[trigger] d[j] == payload[i * (MAX_DGRAM_SIZE
        - 32) + j - 32] by {
        assert(d.skip(32)[j - 32] == chunk[j - 32]);
    }
}

} // verus!
