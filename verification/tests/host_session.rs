//! The session with the client.

use eternal_monitor::host::transport::session::{
    ConfigSource, HostIp, PeerAddr, Session, LIVENESS_TIMEOUT,
};
use eternal_monitor::wire::v2::control::{
    parse_control, ByeReason, ControlMessage, Hello2, HelloAck, HelloStatus, InputEvent,
    KeyframeReason, KeyframeRequest, Ping, ReceiverReport, StreamConfig, CAP_DECODE_H264,
    CAP_DECODE_HEVC, FEATURE_WANTS_INPUT,
};

/// A moment on the clock, in nanoseconds.
const START: u64 = 10_000_000_000;

fn millis(n: u64) -> u64 {
    n * 1_000_000
}

struct TestConfig;

impl ConfigSource for TestConfig {
    fn stream_config(&self) -> StreamConfig {
        StreamConfig {
            stream_epoch: 7,
            width: 1280,
            height: 720,
            fps: 60,
            codec: 0,
            flags: 0,
            bitrate_bps: 15_000_000,
        }
    }

    fn host_name(&self) -> String {
        "TEST-HOST".to_string()
    }

    fn host_now_us(&self) -> u64 {
        5_000_000
    }
}

fn hello(nonce: u32, port: u16) -> ControlMessage {
    ControlMessage::Hello2(Hello2 {
        proto_min: 2,
        proto_max: 2,
        client_nonce: nonce,
        listen_port: port,
        decoder_caps: CAP_DECODE_H264,
        feature_caps: 0,
        screen_px_w: 2420,
        screen_px_h: 1668,
        screen_pt_w: 1210,
        screen_pt_h: 834,
        refresh_hz: 120,
        device_name: "Test iPad".to_string(),
    })
}

fn addr(ip: [u8; 4], port: u16) -> PeerAddr {
    PeerAddr {
        ip: HostIp::V4(u32::from_be_bytes(ip)),
        port,
    }
}

fn parse_ack(bytes: &[u8]) -> HelloAck {
    let (_, message) = parse_control(bytes).unwrap();
    match message {
        ControlMessage::HelloAck(ack) => ack,
        other => panic!("expected ack, got {other:?}"),
    }
}

#[test]
fn first_hello_establishes_session_and_targets_media() {
    let mut session = Session::new(1234);
    let now = START;
    let peer = addr([10, 0, 0, 5], 50000);

    let actions = session.handle_control(peer, hello(1, 50000), &TestConfig, now);

    assert_eq!(actions.replies.len(), 1);
    let ack = parse_ack(&actions.replies[0].1);
    assert_eq!(ack.status, HelloStatus::Accepted);
    assert_ne!(ack.session_id, 0);
    assert_eq!(ack.liveness_timeout_ms, 3000);
    assert_eq!(actions.new_target, Some(addr([10, 0, 0, 5], 50000)));
    assert!(actions.force_idr);
    assert!(session.is_active());

    let info = session.client_info().unwrap();
    assert_eq!(info.screen_px, (2420, 1668));
    assert_eq!(
        info.refresh_hz, 120,
        "panel refresh feeds the VDD mode list"
    );
}

#[test]
fn duplicate_nonce_gets_identical_ack_without_new_session() {
    let mut session = Session::new(1234);
    let now = START;
    let peer = addr([10, 0, 0, 5], 50000);

    let first = session.handle_control(peer, hello(1, 50000), &TestConfig, now);
    let first_id = parse_ack(&first.replies[0].1).session_id;

    let dup = session.handle_control(peer, hello(1, 50000), &TestConfig, now);
    assert_eq!(parse_ack(&dup.replies[0].1).session_id, first_id);
    assert!(dup.new_target.is_none(), "retransmit must not re-target");
    assert!(!dup.force_idr);
}

#[test]
fn new_nonce_from_same_ip_supersedes_in_place() {
    let mut session = Session::new(1234);
    let now = START;
    let peer = addr([10, 0, 0, 5], 50000);
    let first = session.handle_control(peer, hello(1, 50000), &TestConfig, now);
    let first_id = parse_ack(&first.replies[0].1).session_id;

    // App relaunched: new ephemeral source port, new nonce.
    let relaunched = addr([10, 0, 0, 5], 50101);
    let second = session.handle_control(relaunched, hello(2, 50101), &TestConfig, now);
    let second_id = parse_ack(&second.replies[0].1).session_id;

    assert_ne!(
        second_id, first_id,
        "supersede must mint a fresh session id"
    );
    assert_eq!(second.new_target, Some(addr([10, 0, 0, 5], 50101)));
    assert!(second.force_idr);
}

#[test]
fn different_ip_is_rejected_busy_while_active() {
    let mut session = Session::new(1234);
    let now = START;
    session.handle_control(
        addr([10, 0, 0, 5], 50000),
        hello(1, 50000),
        &TestConfig,
        now,
    );

    let intruder = addr([10, 0, 0, 9], 40000);
    let actions = session.handle_control(intruder, hello(9, 40000), &TestConfig, now);
    let ack = parse_ack(&actions.replies[0].1);
    assert_eq!(ack.status, HelloStatus::Busy);
    assert_eq!(ack.session_id, 0);
    assert!(actions.new_target.is_none());
    assert_eq!(session.peer(), Some(addr([10, 0, 0, 5], 50000)));
}

#[test]
fn unsupported_version_is_refused() {
    let mut session = Session::new(1234);
    let now = START;
    let peer = addr([10, 0, 0, 5], 50000);
    let msg = ControlMessage::Hello2(Hello2 {
        proto_min: 3,
        proto_max: 4,
        client_nonce: 1,
        listen_port: 50000,
        decoder_caps: CAP_DECODE_H264,
        feature_caps: 0,
        screen_px_w: 1,
        screen_px_h: 1,
        screen_pt_w: 1,
        screen_pt_h: 1,
        refresh_hz: 60,
        device_name: String::new(),
    });
    let actions = session.handle_control(peer, msg, &TestConfig, now);
    assert_eq!(
        parse_ack(&actions.replies[0].1).status,
        HelloStatus::VersionUnsupported
    );
    assert!(!session.is_active());
}

#[test]
fn bye_and_liveness_expiry_tear_down() {
    let mut session = Session::new(1234);
    let now = START;
    let peer = addr([10, 0, 0, 5], 50000);
    session.handle_control(peer, hello(1, 50000), &TestConfig, now);

    let bye = session.handle_control(
        peer,
        ControlMessage::Bye(ByeReason::UserDisconnect),
        &TestConfig,
        now,
    );
    assert!(bye.client_lost);
    assert!(!session.is_active());

    // Re-establish, then let liveness lapse.
    session.handle_control(peer, hello(2, 50000), &TestConfig, now);
    let expired = session.tick(&TestConfig, false, now + LIVENESS_TIMEOUT);
    assert!(expired.client_lost);
    assert!(!session.is_active());
}

#[test]
fn reports_extend_liveness_and_are_stored() {
    let mut session = Session::new(1234);
    let now = START;
    let peer = addr([10, 0, 0, 5], 50000);
    session.handle_control(peer, hello(1, 50000), &TestConfig, now);

    let later = now + millis(2500);
    let report = ReceiverReport {
        frames_complete: 99,
        ..Default::default()
    };
    session.handle_control(
        peer,
        ControlMessage::ReceiverReport(report),
        &TestConfig,
        later,
    );

    // Would have expired at now+3s without the report.
    let ticked = session.tick(&TestConfig, false, now + millis(4000));
    assert!(!ticked.client_lost);
    assert_eq!(session.last_report().unwrap().frames_complete, 99);

    // Expires 3s after the report.
    let expired = session.tick(&TestConfig, false, later + LIVENESS_TIMEOUT);
    assert!(expired.client_lost);
}

#[test]
fn keyframe_requests_are_rate_limited() {
    let mut session = Session::new(1234);
    let now = START;
    let peer = addr([10, 0, 0, 5], 50000);
    session.handle_control(peer, hello(1, 50000), &TestConfig, now);

    let request = ControlMessage::KeyframeRequest(KeyframeRequest {
        stream_epoch: 7,
        last_complete_seq: 10,
        reason: KeyframeReason::GapLoss,
    });

    let first = session.handle_control(peer, request.clone(), &TestConfig, now);
    assert!(first.force_idr);

    let spammed = session.handle_control(
        peer,
        request.clone(),
        &TestConfig,
        now + millis(100),
    );
    assert!(
        !spammed.force_idr,
        "requests inside the window are coalesced"
    );

    let granted_again =
        session.handle_control(peer, request, &TestConfig, now + millis(600));
    assert!(granted_again.force_idr);
}

fn input_event(event_id: u32) -> ControlMessage {
    ControlMessage::InputEvent(InputEvent {
        input_ver: 1,
        kind: 0,
        phase: 0,
        buttons: 1,
        event_id,
        x_norm: 100,
        y_norm: 100,
        pressure_x1000: 0,
        scroll_dx: 0,
        scroll_dy: 0,
        keycode: 0,
        modifiers: 0,
        client_time_us: 0,
    })
}

#[test]
fn input_relayed_only_for_sessions_that_asked() {
    let mut session = Session::new(1234);
    let now = START;
    let peer = addr([10, 0, 0, 5], 50000);

    // View-only session: input is dropped.
    session.handle_control(peer, hello(1, 50000), &TestConfig, now);
    let dropped = session.handle_control(peer, input_event(1), &TestConfig, now);
    assert!(
        dropped.input.is_none(),
        "view-only sessions must not inject"
    );

    // Re-handshake asking for input relay.
    let mut wants = match hello(2, 50000) {
        ControlMessage::Hello2(h) => h,
        _ => unreachable!(),
    };
    wants.feature_caps = FEATURE_WANTS_INPUT;
    session.handle_control(peer, ControlMessage::Hello2(wants), &TestConfig, now);

    let relayed = session.handle_control(peer, input_event(2), &TestConfig, now);
    assert!(relayed.input.is_some());

    // A different IP can't inject into this session.
    let intruder = addr([10, 0, 0, 9], 40000);
    let foreign = session.handle_control(intruder, input_event(3), &TestConfig, now);
    assert!(foreign.input.is_none());
}

#[test]
fn input_extends_liveness() {
    let mut session = Session::new(1234);
    let now = START;
    let peer = addr([10, 0, 0, 5], 50000);
    let mut wants = match hello(1, 50000) {
        ControlMessage::Hello2(h) => h,
        _ => unreachable!(),
    };
    wants.feature_caps = FEATURE_WANTS_INPUT;
    session.handle_control(peer, ControlMessage::Hello2(wants), &TestConfig, now);

    // A drag mid-window keeps the session alive past the original deadline.
    let later = now + millis(2500);
    session.handle_control(peer, input_event(1), &TestConfig, later);
    let ticked = session.tick(&TestConfig, false, now + millis(4000));
    assert!(!ticked.client_lost);
}

#[test]
fn heartbeats_flow_only_while_active() {
    let mut session = Session::new(1234);
    let now = START;
    assert!(session.tick(&TestConfig, true, now).replies.is_empty());

    let peer = addr([10, 0, 0, 5], 50000);
    session.handle_control(peer, hello(1, 50000), &TestConfig, now);
    let ticked = session.tick(&TestConfig, true, now + millis(100));
    assert_eq!(ticked.replies.len(), 1);
    let (_, message) = parse_control(&ticked.replies[0].1).unwrap();
    assert!(matches!(message, ControlMessage::Heartbeat(_)));
}

#[test]
fn the_client_is_told_what_the_source_gives() {
    let mut s = Session::new(1);
    let client = addr([10, 0, 0, 5], 50_000);
    let actions = s.handle_control(client, hello(1, 0), &TestConfig, START);
    let ack = parse_ack(&actions.replies[0].1);
    assert_eq!(ack.host_name, "TEST-HOST");
    assert_eq!(ack.stream_config, TestConfig.stream_config());
    let beat = s.tick(&TestConfig, true, START);
    match parse_control(&beat.replies[0].1).unwrap().1 {
        ControlMessage::Heartbeat(h) => {
            assert_eq!(h.host_time_us, 5_000_000);
            assert_eq!(h.stream_config, TestConfig.stream_config());
        }
        other => panic!("{other:?}"),
    }
    let notices = s.stream_config_notify(&TestConfig);
    assert_eq!(notices[0].0, client);
    match parse_control(&notices[0].1).unwrap().1 {
        ControlMessage::StreamConfig(c) => assert_eq!(c, TestConfig.stream_config()),
        other => panic!("{other:?}"),
    }
}

#[test]
fn a_host_that_leaves_says_goodbye() {
    let mut s = Session::new(1);
    let nobody = s.close(ByeReason::HostShuttingDown);
    assert!(nobody.replies.is_empty() && !nobody.client_lost);
    let client = addr([10, 0, 0, 5], 50_000);
    s.handle_control(client, hello(1, 0), &TestConfig, START);
    let id = s.session_id().unwrap();
    let actions = s.close(ByeReason::HostShuttingDown);
    assert_eq!(actions.replies.len(), 1);
    assert_eq!(actions.replies[0].0, client);
    let (header, message) = parse_control(&actions.replies[0].1).unwrap();
    assert_eq!(header.session_id, id);
    assert!(matches!(
        message,
        ControlMessage::Bye(ByeReason::HostShuttingDown)
    ));
    assert!(actions.client_lost);
    assert!(!s.is_active());
    assert!(s.tick(&TestConfig, true, START).replies.is_empty());
}

#[test]
fn silence_counts_from_the_opening_and_past_refusals() {
    let peer = addr([10, 0, 0, 5], 50000);
    let other = addr([10, 0, 0, 6], 50000);
    let mut session = Session::new(1234);
    assert!(session.tick(&TestConfig, true, START).replies.is_empty());
    session.handle_control(peer, hello(1, 50000), &TestConfig, START);
    let id = session.session_id().unwrap();
    // None of these is heard as the client: a retransmit, another device's
    // hello and report, input of a session that did not ask for it.
    let later = START + millis(2000);
    session.handle_control(peer, hello(1, 50000), &TestConfig, later);
    session.handle_control(other, hello(2, 50000), &TestConfig, later);
    let report = ControlMessage::ReceiverReport(ReceiverReport::default());
    session.handle_control(other, report.clone(), &TestConfig, later);
    let input = ControlMessage::InputEvent(InputEvent {
        input_ver: 1,
        kind: 0,
        phase: 0,
        buttons: 0,
        event_id: 1,
        x_norm: 0,
        y_norm: 0,
        pressure_x1000: 0,
        scroll_dx: 0,
        scroll_dy: 0,
        keycode: 0,
        modifiers: 0,
        client_time_us: 0,
    });
    session.handle_control(peer, input, &TestConfig, later);
    let beat = session.tick(&TestConfig, true, START + LIVENESS_TIMEOUT - 1);
    assert!(!beat.client_lost);
    assert_eq!(beat.replies.len(), 1);
    assert_eq!(beat.replies[0].0, peer);
    let (header, message) = parse_control(&beat.replies[0].1).unwrap();
    assert_eq!(header.session_id, id);
    assert!(matches!(message, ControlMessage::Heartbeat(_)));
    let end = session.tick(&TestConfig, true, START + LIVENESS_TIMEOUT);
    assert!(end.client_lost && end.replies.is_empty() && !session.is_active());

    // A report of the client moves the end.
    session.handle_control(peer, hello(3, 50000), &TestConfig, START);
    session.handle_control(peer, report, &TestConfig, later);
    let kept = session.tick(&TestConfig, false, later + LIVENESS_TIMEOUT - 1);
    assert!(!kept.client_lost && kept.replies.is_empty() && session.is_active());
    assert!(session.tick(&TestConfig, false, later + LIVENESS_TIMEOUT).client_lost);
}
