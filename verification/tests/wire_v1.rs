//! Version 1 fragment headers, and the frame packets of that version.

use eternal_monitor::wire::frame::{
    parse_frame_packet, serialize_frame_packet, ParsedFramePacket,
};
use eternal_monitor::wire::v1_fragment::FragmentHeader;

#[test]
fn v1_fragment_header_round_trip() {
    let header = FragmentHeader {
        seq: 0xDEAD_BEEF,
        fragment_index: 3,
        fragment_count: 700,
        payload_len: 1388,
        stream_epoch: 0x00C0_FFEE,
    };
    let bytes = header.to_bytes();
    let recovered = FragmentHeader::from_bytes(&bytes);
    assert_eq!(recovered.seq, header.seq);
    assert_eq!(recovered.fragment_index, header.fragment_index);
    assert_eq!(recovered.fragment_count, header.fragment_count);
    assert_eq!(recovered.payload_len, header.payload_len);
    assert_eq!(recovered.stream_epoch, header.stream_epoch);
}

#[test]
fn header_is_little_endian() {
    let header = FragmentHeader {
        seq: 0x0102_0304,
        fragment_index: 0x0506,
        fragment_count: 0x0708,
        payload_len: 0x090A_0B0C,
        stream_epoch: 0x0D0E_0F10,
    };
    let bytes = header.to_bytes();
    assert_eq!(&bytes[0..4], &[0x04, 0x03, 0x02, 0x01]);
    assert_eq!(&bytes[4..6], &[0x06, 0x05]);
    assert_eq!(&bytes[6..8], &[0x08, 0x07]);
    assert_eq!(&bytes[8..12], &[0x0C, 0x0B, 0x0A, 0x09]);
    assert_eq!(&bytes[12..16], &[0x10, 0x0F, 0x0E, 0x0D]);
}

#[test]
fn round_trip_frame_packet() {
    let data = vec![0xDE, 0xAD, 0xBE, 0xEF];
    let buf = serialize_frame_packet(42, 123_456, &data, 1920, 1080, true);

    let parsed = parse_frame_packet(&buf).expect("serialized packet parses");
    assert_eq!(
        parsed,
        ParsedFramePacket {
            seq: 42,
            timestamp_us: 123_456,
            data,
            width: 1920,
            height: 1080,
            is_keyframe: true,
        }
    );
}

#[test]
fn default_valued_fields_parse_as_defaults() {
    // seq=0/width=0/height=0/is_keyframe=false are omitted from the vtable
    // by push_slot; the reader must fill in defaults, matching the Swift parser.
    let buf = serialize_frame_packet(0, 0, &[1, 2, 3], 0, 0, false);
    let parsed = parse_frame_packet(&buf).expect("parses");
    assert_eq!(parsed.seq, 0);
    assert_eq!(parsed.timestamp_us, 0);
    assert_eq!(parsed.width, 0);
    assert!(!parsed.is_keyframe);
    assert_eq!(parsed.data, vec![1, 2, 3]);
}

#[test]
fn truncated_and_junk_buffers_never_panic() {
    let buf = serialize_frame_packet(7, 9, &[0xAA; 32], 640, 360, true);
    for len in 0..buf.len() {
        let _ = parse_frame_packet(&buf[..len]);
    }
    let junk: Vec<u8> = (0..64u8).collect();
    let _ = parse_frame_packet(&junk);
}
