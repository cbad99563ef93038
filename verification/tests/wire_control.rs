//! Control datagrams.

use eternal_monitor::wire::v2::classify;
use eternal_monitor::wire::v2::control::{
    encode_control, parse_control, ByeReason, ControlMessage, Heartbeat, Hello2, HelloAck,
    HelloStatus, InputEvent, KeyframeReason, KeyframeRequest, Ping, Pong, ReceiverReport,
    StreamConfig, CAP_DECODE_H264, CAP_DECODE_HEVC, CODEC_H264, CONTROL_HEADER_SIZE,
    FEATURE_WANTS_INPUT, MAX_NAME_LEN,
};
use eternal_monitor::wire::v2::media::MediaHeader;
use eternal_monitor::wire::v2::WireError;

fn sample_config() -> StreamConfig {
    StreamConfig {
        stream_epoch: 3,
        width: 2560,
        height: 1440,
        fps: 60,
        codec: CODEC_H264,
        flags: 0,
        bitrate_bps: 15_000_000,
    }
}

fn all_messages() -> Vec<ControlMessage> {
    vec![
        ControlMessage::Hello2(Hello2 {
            proto_min: 2,
            proto_max: 2,
            client_nonce: 0xDEAD_BEEF,
            listen_port: 9876,
            decoder_caps: CAP_DECODE_H264 | CAP_DECODE_HEVC,
            feature_caps: FEATURE_WANTS_INPUT,
            screen_px_w: 2420,
            screen_px_h: 1668,
            screen_pt_w: 1210,
            screen_pt_h: 834,
            refresh_hz: 120,
            device_name: "Ali's iPad Pro".to_string(),
        }),
        ControlMessage::HelloAck(HelloAck {
            status: HelloStatus::Accepted,
            accepted_version: 2,
            client_nonce: 0xDEAD_BEEF,
            session_id: 0x1234_5678,
            heartbeat_interval_ms: 1000,
            report_interval_ms: 500,
            liveness_timeout_ms: 3000,
            stream_config: sample_config(),
            host_name: "ALI-PC".to_string(),
        }),
        ControlMessage::Heartbeat(Heartbeat {
            host_time_us: 987_654_321,
            stream_config: sample_config(),
        }),
        ControlMessage::Bye(ByeReason::AppBackground),
        ControlMessage::KeyframeRequest(KeyframeRequest {
            stream_epoch: 3,
            last_complete_seq: 4111,
            reason: KeyframeReason::GapLoss,
        }),
        ControlMessage::ReceiverReport(ReceiverReport {
            stream_epoch: 3,
            highest_seq: 5000,
            frames_complete: 4990,
            frames_dropped: 10,
            frags_received: 120_000,
            frags_lost: 250,
            jitter_us: 2_100,
            decode_fps_x10: 599,
            assembler_depth: 1,
            decode_depth: 0,
            e2e_latency_ms_x10: 321,
            rtt_ms_x10: 28,
        }),
        ControlMessage::Ping(Ping { t1_us: 42 }),
        ControlMessage::Pong(Pong {
            t1_us: 42,
            t2_us: 43,
            t3_us: 44,
        }),
        ControlMessage::StreamConfig(sample_config()),
        ControlMessage::InputEvent(InputEvent {
            input_ver: 1,
            kind: 0,
            phase: 1,
            buttons: 1,
            event_id: 77,
            x_norm: 32768,
            y_norm: 16384,
            pressure_x1000: 500,
            scroll_dx: -3,
            scroll_dy: 12,
            keycode: 0,
            modifiers: 0,
            client_time_us: 1_000_001,
        }),
    ]
}

#[test]
fn every_message_round_trips() {
    for message in all_messages() {
        let session_id = if matches!(message, ControlMessage::Hello2(_)) {
            0
        } else {
            0x1234_5678
        };
        let datagram = encode_control(session_id, 9, &message);
        let (header, parsed) = parse_control(&datagram)
            .unwrap_or_else(|e| panic!("{message:?} failed to parse: {e:?}"));
        assert_eq!(header.session_id, session_id);
        assert_eq!(header.msg_seq, 9);
        assert_eq!(parsed, message, "round-trip mismatch");
    }
}

#[test]
fn every_truncation_of_every_message_is_rejected() {
    for message in all_messages() {
        let datagram = encode_control(1, 1, &message);
        for len in 0..datagram.len() {
            assert!(
                parse_control(&datagram[..len]).is_err(),
                "{message:?} truncated to {len}/{} bytes must not parse",
                datagram.len()
            );
        }
    }
}

#[test]
fn trailing_bytes_are_ignored_for_forward_compat() {
    let mut datagram = encode_control(1, 1, &ControlMessage::Ping(Ping { t1_us: 5 }));
    datagram.extend_from_slice(&[0xAA, 0xBB]);
    // payload_len must still match, so a forward-compatible sender bumps it.
    let new_len = (datagram.len() - CONTROL_HEADER_SIZE) as u16;
    datagram[6..8].copy_from_slice(&new_len.to_le_bytes());
    let (_, parsed) = parse_control(&datagram).expect("extended body must parse");
    assert_eq!(parsed, ControlMessage::Ping(Ping { t1_us: 5 }));
}

#[test]
fn invalid_enums_and_names_are_rejected() {
    // Unknown bye reason.
    let mut bye = encode_control(1, 1, &ControlMessage::Bye(ByeReason::Error));
    *bye.last_mut().unwrap() = 200;
    assert_eq!(
        parse_control(&bye),
        Err(WireError::InvalidField("bye_reason"))
    );

    // HELLO_ACK with Ok status but zero session id.
    let ack = ControlMessage::HelloAck(HelloAck {
        status: HelloStatus::Accepted,
        accepted_version: 2,
        client_nonce: 1,
        session_id: 0,
        heartbeat_interval_ms: 1000,
        report_interval_ms: 500,
        liveness_timeout_ms: 3000,
        stream_config: sample_config(),
        host_name: String::new(),
    });
    // encode_control would happily serialize it; the parser must reject.
    let datagram = encode_control(0, 1, &ack);
    assert_eq!(
        parse_control(&datagram),
        Err(WireError::InvalidField("session_id"))
    );

    // Oversized name length byte.
    let hello = encode_control(
        0,
        1,
        &ControlMessage::Hello2(Hello2 {
            proto_min: 2,
            proto_max: 2,
            client_nonce: 1,
            listen_port: 9876,
            decoder_caps: CAP_DECODE_H264,
            feature_caps: 0,
            screen_px_w: 100,
            screen_px_h: 100,
            screen_pt_w: 100,
            screen_pt_h: 100,
            refresh_hz: 60,
            device_name: "x".to_string(),
        }),
    );
    let name_len_at = CONTROL_HEADER_SIZE + 21;
    let mut bad = hello.clone();
    bad[name_len_at] = (MAX_NAME_LEN + 1) as u8;
    assert_eq!(
        parse_control(&bad),
        Err(WireError::InvalidField("name_len"))
    );
}

#[test]
fn long_device_names_are_truncated_on_char_boundary() {
    let long_name = "é".repeat(60); // 120 UTF-8 bytes
    let datagram = encode_control(
        0,
        1,
        &ControlMessage::Hello2(Hello2 {
            proto_min: 2,
            proto_max: 2,
            client_nonce: 1,
            listen_port: 9876,
            decoder_caps: CAP_DECODE_H264,
            feature_caps: 0,
            screen_px_w: 1,
            screen_px_h: 1,
            screen_pt_w: 1,
            screen_pt_h: 1,
            refresh_hz: 60,
            device_name: long_name,
        }),
    );
    let (_, parsed) = parse_control(&datagram).unwrap();
    let ControlMessage::Hello2(hello) = parsed else {
        panic!("wrong type");
    };
    assert!(hello.device_name.len() <= MAX_NAME_LEN);
    assert_eq!(hello.device_name, "é".repeat(32)); // 64 bytes exactly
}

#[test]
fn random_bytes_never_panic() {
    // Deterministic pseudo-random fuzz (no rand dep): xorshift over lengths/bytes.
    let mut state = 0x1234_5678_9ABC_DEFFu64;
    let mut next = move || {
        state ^= state << 13;
        state ^= state >> 7;
        state ^= state << 17;
        state
    };
    for _ in 0..20_000 {
        let len = (next() % 80) as usize;
        let bytes: Vec<u8> = (0..len).map(|_| (next() & 0xFF) as u8).collect();
        let _ = parse_control(&bytes); // must not panic
        let _ = MediaHeader::decode(&bytes);
        let _ = classify(&bytes);
    }
}
