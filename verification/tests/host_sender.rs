//! The sending side of the transport.

use eternal_monitor::host::control::{CaptureTarget, SharedControl, VddStatus};
use eternal_monitor::host::encoder::NALUnit;
use eternal_monitor::host::input::{CaptureGeometry, Injection, VirtualScreen};
use eternal_monitor::host::transport::pacer::{
    next_batch, Batch, BATCH_PAUSE, BATCH_SIZE, PACING_BUDGET,
};
use eternal_monitor::host::transport::sender::{
    apply_actions, next_stream_epoch, on_datagram, plan_media, stream_config, Inbound, MediaPlan,
    Sender, StreamFacts,
};
use eternal_monitor::host::transport::session::{
    Actions, HostIp, HostOffer, PeerAddr, LIVENESS_TIMEOUT,
};
use eternal_monitor::wire::v2::control::{
    encode_control, parse_control, ControlMessage, Hello2, InputEvent, KeyframeReason, KeyframeRequest,
    Ping, ReceiverReport, StreamConfig, CAP_DECODE_H264, CODEC_HEVC, FEATURE_WANTS_INPUT, STREAM_FLAG_SOFTWARE_ENCODER,
};
use eternal_monitor::wire::v2::media::{MediaHeader, MAX_FRAG_COUNT, MAX_MEDIA_PAYLOAD};
use eternal_monitor::wire::v2::{WireError, LEGACY_HELLO_MAGIC};

const NOW: u64 = 10_000_000_000;

const FACTS: StreamFacts = StreamFacts {
    width: 1280,
    height: 720,
    software: false,
};

const SCREEN: VirtualScreen = VirtualScreen {
    left: 0,
    top: 0,
    width: 1920,
    height: 1080,
};

fn shared() -> SharedControl {
    SharedControl::new(9876, 15_000_000, 42)
}

fn client() -> PeerAddr {
    PeerAddr {
        ip: HostIp::V4(0x0A00_0005),
        port: 50_000,
    }
}

fn offer() -> HostOffer {
    HostOffer {
        stream_config: StreamConfig::default(),
        host_name: "HOST".to_string(),
    }
}

fn hello() -> Vec<u8> {
    encode_control(
        0,
        1,
        &ControlMessage::Hello2(Hello2 {
            proto_min: 2,
            proto_max: 2,
            client_nonce: 9,
            listen_port: 50_000,
            decoder_caps: CAP_DECODE_H264,
            feature_caps: FEATURE_WANTS_INPUT,
            screen_px_w: 1,
            screen_px_h: 1,
            screen_pt_w: 1,
            screen_pt_h: 1,
            refresh_hz: 60,
            device_name: "pad".to_string(),
        }),
    )
}

fn receive(shared: &mut SharedControl, datagram: &[u8]) -> Inbound {
    on_datagram(shared, client(), datagram, &offer(), 1, 2, NOW)
}

/// Connects the client, and carries out what that calls for.
fn connected() -> SharedControl {
    let mut shared = shared();
    match receive(&mut shared, &hello()) {
        Inbound::Handled { actions, .. } => {
            assert!(!apply_actions(&mut shared, &actions));
        }
        other => panic!("{other:?}"),
    }
    shared
}

fn nal(len: usize) -> NALUnit {
    NALUnit {
        data: vec![5; len],
        sequence: 0x1_0000_0003,
        timestamp: 7_000_000,
        encode_duration_us: 1,
        is_keyframe: true,
    }
}

#[test]
fn epochs_start_at_one_and_skip_zero() {
    assert_eq!(next_stream_epoch(0), (1, 1));
    assert_eq!(next_stream_epoch(1), (2, 2));
    assert_eq!(next_stream_epoch(u32::MAX), (0, 1));
}

#[test]
fn advertised_parameters_are_those_in_force() {
    let mut shared = shared();
    shared.abr_current_bps = 8_000_000;
    shared.active_codec = CODEC_HEVC;
    shared.target_fps = 100_000;
    let config = stream_config(
        &shared,
        3,
        StreamFacts {
            width: 70_000,
            height: 720,
            software: true,
        },
    );
    assert_eq!(
        config,
        StreamConfig {
            stream_epoch: 3,
            width: 65_535,
            height: 720,
            fps: 65_535,
            codec: CODEC_HEVC,
            flags: STREAM_FLAG_SOFTWARE_ENCODER,
            bitrate_bps: 8_000_000,
        }
    );
}

#[test]
fn datagrams_are_routed_by_what_they_are() {
    let mut shared = shared();
    assert!(matches!(
        receive(&mut shared, &hello()),
        Inbound::Handled { .. }
    ));
    assert!(shared.client_connected());
    let ping = encode_control(1, 1, &ControlMessage::Ping(Ping { t1_us: 3 }));
    match receive(&mut shared, &ping[..ping.len() - 1]) {
        Inbound::Malformed(e) => assert_eq!(e, WireError::LengthMismatch),
        other => panic!("{other:?}"),
    }
    assert!(matches!(
        receive(&mut shared, &LEGACY_HELLO_MAGIC),
        Inbound::LegacyHello { first: true }
    ));
    assert!(matches!(
        receive(&mut shared, &LEGACY_HELLO_MAGIC),
        Inbound::LegacyHello { first: false }
    ));
    assert!(matches!(receive(&mut shared, &[1, 2, 3]), Inbound::Ignored));
}

#[test]
fn media_needs_a_client_and_a_target() {
    let quiet = shared();
    assert!(matches!(plan_media(&quiet, 1, &nal(10), 0), MediaPlan::Skip));
    let mut shared = connected();
    shared.target_addr.port = 0;
    assert!(matches!(
        plan_media(&shared, 1, &nal(10), 0),
        MediaPlan::Skip
    ));
}

#[test]
fn media_is_stamped_with_the_session() {
    let shared = connected();
    let id = shared.session.session_id().unwrap();
    let payload = nal(MAX_MEDIA_PAYLOAD + 1);
    match plan_media(&shared, 4, &payload, 1_000_000) {
        MediaPlan::Send { target, datagrams } => {
            assert_eq!(target, client());
            assert_eq!(datagrams.len(), 2);
            let (h, chunk) = MediaHeader::decode(&datagrams[1]).unwrap();
            assert_eq!(h.session_id, id);
            assert_eq!(h.stream_epoch, 4);
            assert_eq!(h.frame_seq, 3);
            assert_eq!((h.frag_index, h.frag_count), (1, 2));
            assert!(h.is_keyframe);
            assert_eq!(h.capture_ts_us, 6_000);
            assert_eq!(chunk, &[5]);
        }
        other => panic!("{other:?}"),
    }
    match plan_media(&shared, 4, &nal(0), 0) {
        MediaPlan::Send { datagrams, .. } => assert!(datagrams.is_empty()),
        other => panic!("{other:?}"),
    }
    let huge = nal(MAX_MEDIA_PAYLOAD * MAX_FRAG_COUNT as usize + 1);
    assert!(matches!(
        plan_media(&shared, 4, &huge, 0),
        MediaPlan::TooLarge
    ));
}

#[test]
fn a_restart_goes_on_with_the_same_client() {
    let mut shared = connected();
    let id = shared.session.session_id().unwrap();
    let (runs, first) = next_stream_epoch(0);
    shared.stop();
    shared.running = true;
    let (_, second) = next_stream_epoch(runs);
    let sender = Sender::new(&mut shared, second, true);
    match plan_media(&shared, sender.stream_epoch, &nal(10), 0) {
        MediaPlan::Send { target, datagrams } => {
            assert_eq!(target, client());
            let (h, _) = MediaHeader::decode(&datagrams[0]).unwrap();
            assert_eq!(h.session_id, id);
            assert_eq!((first, h.stream_epoch), (1, 2));
        }
        other => panic!("{other:?}"),
    }
}

#[test]
fn the_virtual_display_comes_and_goes_with_its_viewer() {
    let mut shared = shared();
    shared.running = true;
    shared.capture_target = CaptureTarget::VirtualExtended;
    shared.vdd_status = VddStatus::WaitingForClient;
    let mut arrival = Actions::default();
    arrival.new_target = Some(client());
    arrival.force_idr = true;
    assert!(apply_actions(&mut shared, &arrival));
    assert_eq!(shared.target_addr, client());
    assert!(shared.force_next_idr);
    assert!(!shared.running);

    shared.running = true;
    shared.vdd_status = VddStatus::Active;
    let mut loss = Actions::default();
    loss.client_lost = true;
    assert!(apply_actions(&mut shared, &loss));
    assert_eq!(shared.target_addr.port, 0);
    assert!(!shared.running);

    // A real display stays as it is.
    shared.capture_target = CaptureTarget::PrimaryAuto;
    shared.running = true;
    assert!(!apply_actions(&mut shared, &loss));
    assert!(shared.running);
}

#[test]
fn heavy_loss_lowers_the_bitrate_and_tells_the_client() {
    let mut shared = connected();
    let mut sender = Sender::new(&mut shared, 1, true);
    assert_eq!(shared.abr_current_bps, 15_000_000);
    let report = ReceiverReport {
        frags_received: 850,
        frags_lost: 150,
        ..Default::default()
    };
    let id = shared.session.session_id().unwrap();
    let datagram = encode_control(id, 2, &ControlMessage::ReceiverReport(report));
    let actions = match receive(&mut shared, &datagram) {
        Inbound::Handled { actions, .. } => actions,
        other => panic!("{other:?}"),
    };
    let out = sender.perform(&mut shared, actions, false, FACTS, SCREEN, NOW);
    assert!(out.bitrate_changed);
    assert_eq!(shared.abr_current_bps, 10_000_000);
    assert_eq!(out.datagrams.len(), 1);
    assert_eq!(out.datagrams[0].0, client());
    match parse_control(&out.datagrams[0].1).unwrap().1 {
        ControlMessage::StreamConfig(c) => {
            assert_eq!(c.bitrate_bps, 10_000_000);
            assert_eq!((c.width, c.height), (1280, 720));
        }
        other => panic!("{other:?}"),
    }
}

#[test]
fn a_lowered_ceiling_takes_effect_on_the_next_tick() {
    let mut shared = connected();
    let mut sender = Sender::new(&mut shared, 1, true);
    shared.bitrate_bps = 6_000_000;
    let (notices, actions) = sender.tick(&mut shared, FACTS, 77, true, NOW);
    assert_eq!(shared.abr_current_bps, 6_000_000);
    assert_eq!(notices.len(), 1);
    assert_eq!(actions.replies.len(), 1);
    match parse_control(&actions.replies[0].1).unwrap().1 {
        ControlMessage::Heartbeat(hb) => {
            assert_eq!(hb.host_time_us, 77);
            assert_eq!(hb.stream_config.bitrate_bps, 6_000_000);
        }
        other => panic!("{other:?}"),
    }
    let (_, lost) = sender.tick(&mut shared, FACTS, 78, true, NOW + LIVENESS_TIMEOUT);
    assert!(lost.client_lost);
}

#[test]
fn input_becomes_commands_once_there_is_an_output() {
    let mut shared = connected();
    let mut sender = Sender::new(&mut shared, 1, false);
    let id = shared.session.session_id().unwrap();
    let event = encode_control(
        id,
        2,
        &ControlMessage::InputEvent(InputEvent {
            input_ver: 1,
            kind: 0,
            phase: 0,
            buttons: 1,
            event_id: 4,
            x_norm: 65_535,
            y_norm: 0,
            pressure_x1000: 0,
            scroll_dx: 0,
            scroll_dy: 0,
            keycode: 0,
            modifiers: 0,
            client_time_us: 0,
        }),
    );
    for (geometry, want) in [(None, 0usize), (
        Some(CaptureGeometry {
            left: 0,
            top: 0,
            width: 1920,
            height: 1080,
        }),
        2,
    )] {
        shared.capture_geometry = geometry;
        let actions = match receive(&mut shared, &event) {
            Inbound::Handled { actions, .. } => actions,
            other => panic!("{other:?}"),
        };
        let out = sender.perform(&mut shared, actions, false, FACTS, SCREEN, NOW);
        assert_eq!(out.injections.len(), want);
        if want == 2 {
            assert_eq!(out.injections[0], Injection::MoveAbs { x: 65_535, y: 0 });
        }
    }
}

#[test]
fn keyframes_are_paced_within_the_budget() {
    assert_eq!(
        next_batch(false, 1000, 0),
        Batch {
            datagrams: 1000,
            pause: 0
        }
    );
    assert_eq!(
        next_batch(true, BATCH_SIZE, 0),
        Batch {
            datagrams: BATCH_SIZE,
            pause: 0
        }
    );
    let (mut rest, mut elapsed, mut batches) = (3000usize, 0u64, 0usize);
    while rest > 0 {
        let batch = next_batch(true, rest, elapsed);
        rest -= batch.datagrams;
        elapsed += batch.pause;
        batches += 1;
    }
    assert_eq!(elapsed, PACING_BUDGET);
    assert_eq!(batches as u64, PACING_BUDGET / BATCH_PAUSE + 1);
    assert_eq!(next_batch(true, 100, PACING_BUDGET - 1).pause, 1);
    assert_eq!(next_batch(true, 100, PACING_BUDGET).datagrams, 100);
}

fn config_in(datagram: &[u8]) -> StreamConfig {
    match parse_control(datagram).unwrap().1 {
        ControlMessage::StreamConfig(config) => config,
        other => panic!("{other:?}"),
    }
}

#[test]
fn every_change_of_the_stream_is_told_once() {
    let mut shared = connected();
    let mut sender = Sender::new(&mut shared, 1, true);
    // A new run has a new epoch, which the client has not been told yet.
    let (notices, _) = sender.tick(&mut shared, FACTS, 1, false, NOW);
    assert_eq!(notices.len(), 1);
    assert_eq!(config_in(&notices[0].1).stream_epoch, 1);
    let (notices, actions) = sender.tick(&mut shared, FACTS, 2, false, NOW + 1);
    assert!(notices.is_empty() && actions.replies.is_empty());

    shared.active_codec = CODEC_HEVC;
    let (notices, _) = sender.tick(&mut shared, FACTS, 3, false, NOW + 2);
    assert_eq!(notices.len(), 1);
    assert_eq!(notices[0].0, client());
    assert_eq!(config_in(&notices[0].1).codec, CODEC_HEVC);
    assert!(sender.tick(&mut shared, FACTS, 4, false, NOW + 3).0.is_empty());

    let larger = StreamFacts {
        width: 1920,
        height: 1080,
        software: false,
    };
    let (notices, _) = sender.tick(&mut shared, larger, 5, false, NOW + 4);
    assert_eq!(notices.len(), 1);
    let told = config_in(&notices[0].1);
    assert_eq!((told.width, told.height), (1920, 1080));
    assert_eq!(sender.announced, Some(told));
    assert!(sender.tick(&mut shared, larger, 6, false, NOW + 5).0.is_empty());
}

#[test]
fn a_bitrate_that_was_told_at_once_is_not_told_again() {
    let mut shared = connected();
    let mut sender = Sender::new(&mut shared, 1, true);
    let mut actions = Actions::default();
    actions.report = Some(ReceiverReport {
        frags_received: 850,
        frags_lost: 150,
        ..Default::default()
    });
    let out = sender.perform(&mut shared, actions, false, FACTS, SCREEN, NOW);
    assert_eq!(config_in(&out.datagrams[0].1).bitrate_bps, 10_000_000);
    assert!(sender.tick(&mut shared, FACTS, 1, false, NOW + 1).0.is_empty());
}

#[test]
fn repeated_keyframe_requests_lower_the_bitrate() {
    let mut shared = connected();
    let mut sender = Sender::new(&mut shared, 1, true);
    let id = shared.session.session_id().unwrap();
    let request = encode_control(
        id,
        2,
        &ControlMessage::KeyframeRequest(KeyframeRequest {
            stream_epoch: 1,
            last_complete_seq: 0,
            reason: KeyframeReason::GapLoss,
        }),
    );
    let mut told = Vec::new();
    for i in 0..3u64 {
        let (actions, asked) = match receive(&mut shared, &request) {
            Inbound::Handled {
                actions,
                keyframe_requested,
            } => (actions, keyframe_requested),
            other => panic!("{other:?}"),
        };
        assert!(asked);
        // Only the first is honored, but all of them count.
        assert_eq!(actions.force_idr, i == 0);
        let out = sender.perform(&mut shared, actions, asked, FACTS, SCREEN, NOW + i);
        assert_eq!(out.bitrate_changed, i == 2);
        told.extend(out.datagrams);
    }
    assert_eq!(shared.abr_current_bps, 12_000_000);
    assert_eq!(told.len(), 1);
    assert_eq!(config_in(&told[0].1).bitrate_bps, 12_000_000);

    // A stranger's request does not count.
    let stranger = PeerAddr {
        ip: HostIp::V4(0x0A00_0006),
        port: 50_000,
    };
    match on_datagram(&mut shared, stranger, &request, &offer(), 1, 2, NOW) {
        Inbound::Handled {
            actions,
            keyframe_requested,
        } => {
            assert!(!keyframe_requested);
            assert!(!actions.force_idr);
        }
        other => panic!("{other:?}"),
    }
}
