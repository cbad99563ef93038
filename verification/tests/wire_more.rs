//! Further properties of the wire formats.

use eternal_monitor::wire::control::{serialize_control_msg, ControlKind};
use eternal_monitor::wire::frame::{parse_frame_packet, serialize_frame_packet};
use eternal_monitor::wire::h264::{
    contains_nal_type, describe_extradata_format, hex_prefix, nal_type, normalize_h264_payload,
    parse_annex_b_units, parse_h264_bitstream, units_are_intra_only, H264BitstreamState,
    H264PacketFormat,
};
use eternal_monitor::wire::hevc::{contains_parameter_sets, is_irap};
use eternal_monitor::wire::reassembly::{AddOutcome, DropReason, Reassembler};
use eternal_monitor::wire::v2::control::{
    encode_control, parse_control, ByeReason, ControlMessage, Hello2, HelloAck, HelloStatus,
    KeyframeReason, KeyframeRequest, Ping, Pong, StreamConfig, CAP_DECODE_H264,
    CONTROL_HEADER_SIZE,
};
use eternal_monitor::wire::v2::media::{
    fragment_access_unit, is_media_datagram, MediaHeader, MAX_FRAG_COUNT, MAX_MEDIA_PAYLOAD,
    MEDIA_HEADER_SIZE,
};
use eternal_monitor::wire::v2::{
    classify, Classified, CommonPrefix, PacketType, WireError, LEGACY_HELLO_MAGIC, MAX_DGRAM_SIZE,
};

const NOW: u64 = 1_000_000_000;

fn header() -> MediaHeader {
    MediaHeader {
        session_id: 7,
        stream_epoch: 1,
        frame_seq: 10,
        frag_index: 0,
        frag_count: 0,
        is_keyframe: false,
        capture_ts_us: 99,
        payload_len: 0,
    }
}

fn hello_named(name: &str) -> ControlMessage {
    ControlMessage::Hello2(Hello2 {
        proto_min: 2,
        proto_max: 2,
        client_nonce: 1,
        listen_port: 9876,
        decoder_caps: CAP_DECODE_H264,
        feature_caps: 0,
        screen_px_w: 1,
        screen_px_h: 1,
        screen_pt_w: 1,
        screen_pt_h: 1,
        refresh_hz: 60,
        device_name: name.to_string(),
    })
}

#[test]
fn errors_read_as_sentences() {
    assert_eq!(WireError::Truncated.describe(), "datagram truncated");
    assert_eq!(WireError::BadMagic.describe(), "bad magic");
    assert_eq!(
        WireError::UnsupportedVersion(13).describe(),
        "unsupported protocol version 13"
    );
    assert_eq!(
        WireError::UnknownType(0x0B).describe(),
        "unknown packet type 0x0B"
    );
    assert_eq!(
        WireError::LengthMismatch.describe(),
        "payload length mismatch"
    );
    assert_eq!(
        WireError::InvalidField("frag_count").describe(),
        "invalid field: frag_count"
    );
}

#[test]
fn every_packet_type_survives_its_byte() {
    let mut known = 0;
    for byte in 0..=255u8 {
        if let Some(t) = PacketType::from_u8(byte) {
            assert_eq!(t.to_u8(), byte);
            known += 1;
        }
    }
    assert_eq!(known, 13);
}

#[test]
fn the_two_versions_never_get_confused() {
    let hello = Vec::from(LEGACY_HELLO_MAGIC);
    assert_eq!(classify(&hello), Classified::LegacyHello);
    assert_eq!(CommonPrefix::decode(&hello), Err(WireError::BadMagic));
    assert_eq!(parse_control(&hello), Err(WireError::BadMagic));
    assert!(!is_media_datagram(&hello));
}

#[test]
fn access_units_may_fill_every_fragment_and_no_more() {
    let largest = vec![1u8; MAX_MEDIA_PAYLOAD * MAX_FRAG_COUNT as usize];
    let datagrams = fragment_access_unit(header(), &largest).unwrap();
    assert_eq!(datagrams.len(), MAX_FRAG_COUNT as usize);
    assert!(datagrams.iter().all(|d| d.len() == MAX_DGRAM_SIZE));
    assert!(datagrams.iter().all(|d| is_media_datagram(d)));

    let too_large = vec![1u8; MAX_MEDIA_PAYLOAD * MAX_FRAG_COUNT as usize + 1];
    assert_eq!(
        fragment_access_unit(header(), &too_large),
        Err(WireError::InvalidField("frag_count"))
    );
}

#[test]
fn access_units_cross_the_wire_in_any_order() {
    let payload: Vec<u8> = (0..5000u32).map(|i| (i * 7 % 253) as u8).collect();
    let mut datagrams = fragment_access_unit(header(), &payload).unwrap();
    assert_eq!(datagrams.len(), 4);
    datagrams.swap(0, 3);
    datagrams.swap(1, 2);
    let mut r = Reassembler::new();
    let mut delivered = None;
    for d in &datagrams {
        let (h, chunk) = MediaHeader::decode(d).unwrap();
        match r.add_fragment(
            h.frame_seq,
            h.frag_index,
            h.frag_count,
            h.stream_epoch,
            chunk,
            NOW,
        ) {
            AddOutcome::Completed(bytes) => delivered = Some(bytes),
            other => assert_eq!(other, AddOutcome::Stored),
        }
    }
    assert_eq!(delivered, Some(payload));
    assert_eq!(r.counters().frames_complete, 1);
    assert_eq!(r.counters().frags_received, 4);
    assert_eq!(r.counters().frags_lost, 0);
}

#[test]
fn a_delivered_frame_stays_delivered() {
    let mut r = Reassembler::default();
    assert_eq!(
        r.add_fragment(9, 0, 1, 1, &[1], NOW),
        AddOutcome::Completed(vec![1])
    );
    for _ in 0..3 {
        assert_eq!(
            r.add_fragment(9, 0, 1, 1, &[2], NOW),
            AddOutcome::Dropped(DropReason::DuplicateCompleted)
        );
    }
    assert_eq!(r.latest_completed_seq(), 9);
    assert_eq!(r.counters().frames_complete, 1);
}

#[test]
fn names_that_are_no_text_are_rejected() {
    let datagram = encode_control(0, 1, &hello_named("ab"));
    let at = datagram.len() - 1;
    let mut broken = datagram.clone();
    broken[at] = 0xFF;
    assert_eq!(
        parse_control(&broken),
        Err(WireError::InvalidField("name_utf8"))
    );
    let (_, message) = parse_control(&datagram).unwrap();
    assert_eq!(message, hello_named("ab"));
    // Names travel as UTF-8, whatever their script.
    let greek = encode_control(0, 1, &hello_named("αβγ"));
    assert_eq!(parse_control(&greek).unwrap().1, hello_named("αβγ"));
}

#[test]
fn refusals_carry_no_session() {
    let ack = |status, session_id| {
        ControlMessage::HelloAck(HelloAck {
            status,
            accepted_version: 2,
            client_nonce: 5,
            session_id,
            heartbeat_interval_ms: 1000,
            report_interval_ms: 500,
            liveness_timeout_ms: 3000,
            stream_config: StreamConfig::default(),
            host_name: "h".to_string(),
        })
    };
    let good = encode_control(0, 1, &ack(HelloStatus::Busy, 0));
    assert_eq!(parse_control(&good).unwrap().1, ack(HelloStatus::Busy, 0));
    let bad = encode_control(0, 1, &ack(HelloStatus::Busy, 77));
    assert_eq!(
        parse_control(&bad),
        Err(WireError::InvalidField("session_id"))
    );
}

#[test]
fn wrong_enum_bytes_are_named() {
    let mut request = encode_control(
        1,
        1,
        &ControlMessage::KeyframeRequest(KeyframeRequest {
            stream_epoch: 1,
            last_complete_seq: 2,
            reason: KeyframeReason::GapLoss,
        }),
    );
    *request.last_mut().unwrap() = 99;
    assert_eq!(
        parse_control(&request),
        Err(WireError::InvalidField("keyframe_reason"))
    );
    let mut short = encode_control(1, 1, &ControlMessage::Ping(Ping { t1_us: 1 }));
    short[6] = 9;
    assert_eq!(parse_control(&short), Err(WireError::LengthMismatch));
    assert_eq!(
        parse_control(&short[..CONTROL_HEADER_SIZE - 1]),
        Err(WireError::Truncated)
    );
}

#[test]
fn control_datagrams_have_a_fixed_layout() {
    let pong = encode_control(
        0x0403_0201,
        0x0807_0605,
        &ControlMessage::Pong(Pong {
            t1_us: 1,
            t2_us: 2,
            t3_us: 3,
        }),
    );
    assert_eq!(
        pong,
        vec![
            0x45, 0x4D, 2, 0x17, 0, 0, 24, 0, 1, 2, 3, 4, 5, 6, 7, 8, 1, 0, 0, 0, 0, 0, 0, 0, 2,
            0, 0, 0, 0, 0, 0, 0, 3, 0, 0, 0, 0, 0, 0, 0
        ]
    );
    let bye = encode_control(1, 2, &ControlMessage::Bye(ByeReason::AppBackground));
    assert_eq!(bye.len(), CONTROL_HEADER_SIZE + 1);
    assert_eq!(bye[3], 0x13);
}

#[test]
fn annex_b_units_are_split_at_both_start_codes() {
    let data = [0, 0, 1, 0x67, 0xAA, 0, 0, 0, 1, 0x68, 0, 0, 1, 0x65, 1, 2];
    assert_eq!(
        parse_annex_b_units(&data),
        vec![vec![0x67, 0xAA], vec![0x68], vec![0x65, 1, 2]]
    );
    assert!(contains_nal_type(&data, 8));
    assert!(!contains_nal_type(&data, 9));
    assert_eq!(nal_type(&[0x65]), Some(5));
    assert_eq!(nal_type(&[]), None);
}

#[test]
fn bitstream_formats_are_told_apart() {
    let (format, units) = parse_h264_bitstream(&[0, 0, 0, 1, 0x41, 7]);
    assert_eq!(format, H264PacketFormat::AnnexB);
    assert_eq!(units, vec![vec![0x41, 7]]);
    let (format, units) = parse_h264_bitstream(&[0, 0, 0, 2, 0x41, 7]);
    assert_eq!(format, H264PacketFormat::Avcc(4));
    assert_eq!(units, vec![vec![0x41, 7]]);
    let (format, units) = parse_h264_bitstream(&[0, 2, 0x41, 7]);
    assert_eq!(format, H264PacketFormat::Avcc(2));
    assert_eq!(units, vec![vec![0x41, 7]]);
    let (format, units) = parse_h264_bitstream(&[2, 0x41, 7]);
    assert_eq!(format, H264PacketFormat::Avcc(1));
    assert_eq!(units, vec![vec![0x41, 7]]);
    let (format, units) = parse_h264_bitstream(&[9, 9]);
    assert_eq!(format, H264PacketFormat::Unknown);
    assert!(units.is_empty());
}

#[test]
fn keyframes_carry_parameter_sets_once() {
    let mut state = H264BitstreamState::default();
    let first = [
        0, 0, 0, 1, 0x67, 1, 0, 0, 0, 1, 0x68, 2, 0, 0, 0, 1, 0x65, 3,
    ];
    assert!(state.needs_parameter_sets());
    assert_eq!(
        normalize_h264_payload(&first, true, &mut state, "libx264"),
        first
    );
    assert!(!state.needs_parameter_sets());
    // A later bare IDR gets the cached sets in front of it, once.
    let bare = [0, 0, 0, 1, 0x65, 9];
    let out = normalize_h264_payload(&bare, true, &mut state, "libx264");
    assert_eq!(
        out,
        vec![0, 0, 0, 1, 0x67, 1, 0, 0, 0, 1, 0x68, 2, 0, 0, 0, 1, 0x65, 9]
    );
    assert_eq!(parse_annex_b_units(&out).len(), 3);
    // A predicted frame passes unchanged.
    let delta = [0, 0, 0, 1, 0x41, 0x9A];
    assert_eq!(
        normalize_h264_payload(&delta, false, &mut state, "libx264"),
        delta
    );
    assert!(!units_are_intra_only(&[]));
}

#[test]
fn extradata_is_described() {
    assert_eq!(describe_extradata_format(&[]), "None");
    assert_eq!(describe_extradata_format(&[1, 2]), "AVCC");
    assert_eq!(describe_extradata_format(&[0, 0, 1, 0x67]), "AnnexB");
    assert_eq!(describe_extradata_format(&[7, 7]), "Unknown");
    assert_eq!(hex_prefix(&[0x0A, 0xFF, 0x10], 2), "0A FF");
    assert_eq!(hex_prefix(&[], 4), "");
}

#[test]
fn random_access_points_of_hevc_are_a_range() {
    assert!(!is_irap(15));
    assert!(is_irap(16));
    assert!(is_irap(21));
    assert!(!is_irap(22));
    assert!(!contains_parameter_sets(&[]));
}

#[test]
fn frame_packets_survive_any_payload() {
    for len in [0usize, 1, 3, 4, 5, 1000] {
        let data: Vec<u8> = (0..len).map(|i| i as u8).collect();
        let buf = serialize_frame_packet(1, 2, &data, 3, 4, len % 2 == 0);
        assert_ne!(buf, data);
        let parsed = parse_frame_packet(&buf).unwrap();
        assert_eq!(
            (parsed.seq, parsed.timestamp_us, parsed.width, parsed.height),
            (1, 2, 3, 4)
        );
        assert_eq!(parsed.data, data);
        assert_eq!(parsed.is_keyframe, len % 2 == 0);
    }
    assert!(parse_frame_packet(&[]).is_none());
}

#[test]
fn control_kinds_serialize_to_different_bytes() {
    let connect = serialize_control_msg(ControlKind::Connect);
    let disconnect = serialize_control_msg(ControlKind::Disconnect);
    let ping = serialize_control_msg(ControlKind::Ping);
    assert_ne!(connect, disconnect);
    assert_ne!(disconnect, ping);
    assert_ne!(connect, ping);
    assert!(connect.len() > 1);
}

#[test]
fn media_headers_have_a_fixed_size() {
    let mut buf = [0u8; MEDIA_HEADER_SIZE];
    MediaHeader {
        frag_count: 1,
        ..header()
    }
    .encode_into(&mut buf);
    let (decoded, payload) = MediaHeader::decode(&buf).unwrap();
    assert_eq!(decoded.frag_count, 1);
    assert!(payload.is_empty());
}

#[test]
fn a_frame_with_number_zero_is_delivered_once() {
    let mut r = Reassembler::new();
    assert_eq!(
        r.add_fragment(0, 0, 1, 1, &[0xA], NOW),
        AddOutcome::Completed(vec![0xA])
    );
    assert_eq!(
        r.add_fragment(0, 0, 1, 1, &[0xA], NOW),
        AddOutcome::Dropped(DropReason::DuplicateCompleted)
    );
    assert_eq!(r.latest_completed_seq(), 0);
    assert_eq!(
        r.add_fragment(1, 0, 1, 1, &[0xB], NOW),
        AddOutcome::Completed(vec![0xB])
    );
    assert_eq!(
        r.add_fragment(0, 0, 1, 1, &[0xA], NOW),
        AddOutcome::Dropped(DropReason::StaleSeq)
    );
    assert_eq!(r.counters().frames_complete, 2);
}
