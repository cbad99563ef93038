//! Capture, encoding and supervision, decision by decision.

use eternal_monitor::host::capture::cursor::{
    draw_cursor, CursorState, Pointer, POINTER_SHAPE_COLOR, POINTER_SHAPE_MASKED_COLOR,
    POINTER_SHAPE_MONOCHROME,
};
use eternal_monitor::host::capture::desktop::{
    capture_label, enumerate_outputs, may_reacquire, pause_after, reacquire_delay_ms,
    wants_synthetic, CaptureLoop, FrameSlot, Idle, OutputDesc, REACQUIRE_ATTEMPTS,
};
use eternal_monitor::host::capture::pixels::{frame_bytes, read_rows, write_rows};
use eternal_monitor::host::capture::synthetic::synthetic_size;
use eternal_monitor::host::capture::{
    after_enable, after_poll, after_timeout, before_poll, begin_reconcile, frame_budget_for,
    vdd_attach_timeout, OutputInfo, RawFrame, VddStep, IDLE_KEEPALIVE,
};
use eternal_monitor::host::control::{
    CaptureTarget, SharedControl, SupervisorCommand, VddStatus,
};
use eternal_monitor::host::encoder::{
    choose_encoder, consider, encoder_label, encoder_options, encoder_params, fault_setting,
    hevc_sibling, is_switched_on, missing_encoder, wants_amf_diagnostics, Admission,
    AmfBitstreamDiagnostics, EncoderChoice, Encoding, Goal, OpenPlan, OpenResult, PtsClock,
    AMF_CAPTURE_PACKET_LIMIT,
};
use eternal_monitor::host::supervisor::{
    wedge_reason, Effect, HealthReporter, Machine, Stage, StageOutcome, SupMsg, Supervisor,
    SupervisorState, BACKOFF_BASE, BACKOFF_MAX, HEALTHY_STRETCH, STORM_LIMIT,
};
use eternal_monitor::host::transport::session::{HostIp, PeerAddr, Session};
use eternal_monitor::wire::h264::H264BitstreamState;
use eternal_monitor::wire::v2::control::{
    ControlMessage, Hello2, CAP_DECODE_H264, CAP_DECODE_HEVC, CODEC_H264, CODEC_HEVC,
};

const NOW: u64 = 100_000_000_000;

fn wide(s: &str) -> Vec<u16> {
    let mut v: Vec<u16> = s.encode_utf16().collect();
    v.extend([0, 0x41, 0x42]);
    v
}

fn shared() -> SharedControl {
    SharedControl::new(9876, 15_000_000, 1)
}

/// Connects a client with the given decoder capabilities.
fn connect(session: &mut Session, caps: u16) {
    let hello = ControlMessage::Hello2(Hello2 {
        proto_min: 2,
        proto_max: 2,
        client_nonce: 9,
        listen_port: 50_000,
        decoder_caps: caps,
        feature_caps: 0,
        screen_px_w: 1,
        screen_px_h: 1,
        screen_pt_w: 1,
        screen_pt_h: 1,
        refresh_hz: 60,
        device_name: String::new(),
    });
    let offer = eternal_monitor::host::transport::session::HostOffer {
        stream_config: Default::default(),
        host_name: String::new(),
    };
    let peer = PeerAddr {
        ip: HostIp::V4(1),
        port: 2,
    };
    session.handle_with(peer, hello, &offer, 0, 0, NOW);
}

// ---- outputs ---------------------------------------------------------------

fn desc(name: &str, attached: bool, left: i32, right: i32) -> OutputDesc {
    OutputDesc {
        adapter_index: 1,
        output_index: 2,
        device_name: wide(name),
        adapter_name: wide("GPU 🎮"),
        attached,
        left,
        top: 0,
        right,
        bottom: 1080,
    }
}

#[test]
fn only_attached_outputs_are_listed() {
    let found = [
        desc("A", false, 0, 10),
        desc(r"\\.\DISPLAY1", true, 0, 1920),
        desc("B", true, 100, 50),
    ];
    let outputs = enumerate_outputs(&found);
    assert_eq!(outputs.len(), 2);
    assert_eq!(outputs[0].device_name, r"\\.\DISPLAY1");
    assert_eq!(outputs[0].adapter_name, "GPU 🎮");
    assert_eq!((outputs[0].width, outputs[0].height), (1920, 1080));
    assert!(outputs[0].is_primary);
    assert_eq!(outputs[1].width, 0);
    assert!(!outputs[1].is_primary);
    assert_eq!(capture_label(&outputs[0]), r"\\.\DISPLAY1 (1920x1080)");
}

#[test]
fn broken_utf16_is_replaced() {
    let mut d = desc("x", true, 0, 1);
    d.device_name = vec![0x61, 0xD800, 0x62, 0xDC00, 0];
    assert_eq!(
        enumerate_outputs(&[d])[0].device_name,
        "a\u{FFFD}b\u{FFFD}"
    );
}

#[test]
fn the_synthetic_source_is_asked_for_by_name() {
    assert!(wants_synthetic(Some(" Synthetic\n")));
    assert!(!wants_synthetic(Some("dxgi")));
    assert!(!wants_synthetic(None));
    assert_eq!(synthetic_size(Some(" 640x360 ")), (640, 360));
    assert_eq!(synthetic_size(Some("640X360")), (640, 360));
    assert_eq!(synthetic_size(Some("15x360")), (1280, 720));
    assert_eq!(synthetic_size(Some("640")), (1280, 720));
}

// ---- the capture loop ------------------------------------------------------

#[test]
fn sizes_of_zero_are_refused() {
    assert_eq!(
        CaptureLoop::new(0, 5, 0).unwrap_err(),
        "Desktop duplication reported invalid dimensions 0x5"
    );
    assert!(CaptureLoop::new(4, 0, 0).is_err());
    assert!(CaptureLoop::new(4, 5, 0).is_ok());
}

#[test]
fn frames_are_numbered_and_resent_when_idle() {
    let mut c = CaptureLoop::new(4, 2, NOW).unwrap();
    assert_eq!(c.on_frame(true, NOW + 1), Some(1));
    assert_eq!(c.on_frame(false, NOW + 2), None);
    assert_eq!(c.on_timeout(false, true, NOW), Idle::Stop);
    assert_eq!(
        c.on_timeout(true, true, NOW + IDLE_KEEPALIVE),
        Idle::Wait
    );
    assert_eq!(
        c.on_timeout(true, false, NOW + 1 + IDLE_KEEPALIVE),
        Idle::Wait
    );
    assert_eq!(
        c.on_timeout(true, true, NOW + 1 + IDLE_KEEPALIVE),
        Idle::Resend { frame_number: 3 }
    );
    assert_eq!(c.last_send, NOW + 1 + IDLE_KEEPALIVE);
    assert!(!c.on_reacquired(0, 2));
    assert!(!c.on_reacquired(4, 2));
    assert!(c.on_reacquired(8, 2));
    assert_eq!((c.width, c.height), (8, 2));
}

#[test]
fn pacing_and_patience() {
    assert_eq!(frame_budget_for(60), 16_666_000);
    assert_eq!(frame_budget_for(0), 1_000_000_000);
    assert_eq!(pause_after(NOW, NOW + 6_666_000, 60), 10_000_000);
    assert_eq!(pause_after(NOW, NOW + 20_000_000, 60), 0);
    assert!(may_reacquire(REACQUIRE_ATTEMPTS - 1, true));
    assert!(!may_reacquire(REACQUIRE_ATTEMPTS, true));
    assert!(!may_reacquire(0, false));
    let total: u64 = (0..REACQUIRE_ATTEMPTS).map(reacquire_delay_ms).sum();
    assert_eq!(total, 23_850);
}

#[test]
fn the_slot_keeps_the_newest_frame() {
    let frame = |n| RawFrame {
        frame_number: n,
        timestamp: 0,
        data: vec![],
        width: 1,
        height: 1,
    };
    let mut slot = FrameSlot::new();
    assert!(slot.publish(frame(1)));
    assert!(slot.publish(frame(2)));
    assert_eq!(slot.take().unwrap().frame_number, 2);
    assert!(slot.take().is_none());
    slot.close();
    assert!(!slot.publish(frame(3)));
}

#[test]
fn rows_survive_padding() {
    assert_eq!(frame_bytes(2, 3), Some(24));
    let frame: Vec<u8> = (0..24).collect();
    let mut padded = vec![0xEE; 10 * 3];
    write_rows(&mut padded, 10, &frame, 2, 3);
    assert_eq!(&padded[8..12], &[0xEE, 0xEE, 8, 9]);
    assert_eq!(read_rows(&padded, 10, 2, 3), frame);
}

#[test]
fn the_pointer_is_drawn_and_clipped() {
    let mut cursor = CursorState {
        shape: vec![10, 20, 30, 255, 1, 2, 3, 0],
        shape_type: POINTER_SHAPE_COLOR,
        width: 2,
        height: 1,
        pitch: 8,
        has_shape: true,
    };
    // Opaque on the left, transparent on the right.
    let mut frame = vec![100u8; 4 * 2 * 2];
    draw_cursor(&mut frame, 2, 2, &cursor, 0, 1);
    assert_eq!(&frame[0..8], &[100; 8]);
    assert_eq!(&frame[8..16], &[10, 20, 30, 100, 100, 100, 100, 100]);

    // Half transparent rounds down.
    cursor.shape[3] = 128;
    let mut frame = vec![100u8; 4];
    draw_cursor(&mut frame, 1, 1, &cursor, 0, 0);
    assert_eq!(frame, vec![54, 59, 64, 100]);

    // A masked shape paints where alpha is zero and flips elsewhere.
    cursor.shape_type = POINTER_SHAPE_MASKED_COLOR;
    cursor.shape[3] = 255;
    let mut frame = vec![0x0Fu8; 8];
    draw_cursor(&mut frame, 2, 1, &cursor, 0, 0);
    assert_eq!(
        frame,
        vec![0x0F ^ 10, 0x0F ^ 20, 0x0F ^ 30, 0x0F, 1, 2, 3, 0x0F]
    );

    // Outside, or of an unknown kind: nothing.
    let mut frame = vec![7u8; 8];
    draw_cursor(&mut frame, 2, 1, &cursor, -2, 0);
    draw_cursor(&mut frame, 2, 1, &cursor, 0, 5);
    cursor.shape_type = 77;
    draw_cursor(&mut frame, 2, 1, &cursor, 0, 0);
    assert_eq!(frame, vec![7u8; 8]);
}

#[test]
fn monochrome_pointers_have_four_inks() {
    // AND mask 0011, XOR mask 0101: black, white, keep, invert.
    let cursor = CursorState {
        shape: vec![0b0011_0000, 0b0101_0000],
        shape_type: POINTER_SHAPE_MONOCHROME,
        width: 4,
        height: 2,
        pitch: 1,
        has_shape: true,
    };
    let mut frame = vec![9u8; 16];
    draw_cursor(&mut frame, 4, 1, &cursor, 0, 0);
    assert_eq!(
        frame,
        vec![0, 0, 0, 9, 255, 255, 255, 9, 9, 9, 9, 9, 246, 246, 246, 9]
    );
    let mut p = Pointer {
        visible: false,
        x: 0,
        y: 0,
    };
    p.update(0, true, 5, 6);
    assert!(!p.visible);
    p.update(3, true, 5, 6);
    assert_eq!((p.visible, p.x, p.y), (true, 5, 6));
    let mut c = CaptureLoop::new(4, 1, 0).unwrap();
    let mut frame = vec![9u8; 16];
    c.compose(&mut frame, &cursor);
    assert_eq!(frame, vec![9u8; 16]);
    c.pointer.visible = true;
    c.compose(&mut frame, &cursor);
    assert_eq!(frame[0], 0);
}

#[test]
fn the_virtual_display_is_up_only_for_a_client() {
    assert!(matches!(
        begin_reconcile(&CaptureTarget::VirtualExtended, true),
        VddStep::Enable
    ));
    match begin_reconcile(&CaptureTarget::VirtualExtended, false) {
        VddStep::Done {
            disable,
            status,
            target,
        } => {
            assert!(disable);
            assert_eq!(status, VddStatus::WaitingForClient);
            assert_eq!(target, CaptureTarget::PrimaryAuto);
        }
        other => panic!("{other:?}"),
    }
    assert!(matches!(after_enable(true), VddStep::Poll));
    assert!(matches!(
        after_enable(false),
        VddStep::Done {
            status: VddStatus::Failed,
            ..
        }
    ));
    let now = [OutputInfo {
        adapter_index: 0,
        output_index: 1,
        device_name: "V".to_string(),
        width: 1,
        height: 1,
        left: 5,
        top: 0,
        is_primary: false,
        adapter_name: String::new(),
    }];
    match after_poll(&[], &now) {
        VddStep::Done { status, target, .. } => {
            assert_eq!(status, VddStatus::Active);
            assert_eq!(target, CaptureTarget::Output("V".to_string()));
        }
        other => panic!("{other:?}"),
    }
    assert!(matches!(
        after_poll(&["V".to_string()], &now),
        VddStep::Poll
    ));
    assert!(matches!(
        after_timeout(),
        VddStep::Done {
            disable: true,
            status: VddStatus::Failed,
            ..
        }
    ));
    assert!(matches!(before_poll(2_999_999_999, 3), VddStep::Poll));
    assert!(matches!(
        before_poll(3_000_000_000, 3),
        VddStep::Done {
            disable: true,
            status: VddStatus::Failed,
            ..
        }
    ));
    assert!(matches!(before_poll(u64::MAX, u64::MAX), VddStep::Poll));
    assert_eq!(vdd_attach_timeout(Some(" 3 ")), 3);
    assert_eq!(vdd_attach_timeout(Some("0")), 10);
    assert_eq!(vdd_attach_timeout(None), 10);
}

#[test]
fn a_pipeline_starts_with_a_keyframe() {
    let mut shared = SharedControl::new(9876, 15_000_000, 1);
    let mut e = Encoding::begin(
        EncoderChoice {
            name: "h264_nvenc".to_string(),
            display: "NVENC".to_string(),
        },
        &mut shared,
    );
    assert!(shared.force_next_idr);
    let goal = e.goal(&shared);
    let plan = e.plan(goal);
    assert_eq!(
        e.after_open(&mut shared, plan, goal, false),
        OpenResult::Fallback
    );
    assert_eq!(
        e.after_open(&mut shared, plan, goal, true),
        OpenResult::Ready
    );
    assert!(e.prepare_frame(shared.force_next_idr));
    assert!(!e.prepare_frame(false));
}

// ---- the encoder -----------------------------------------------------------

fn encoding(name: &str) -> Encoding {
    Encoding::new(EncoderChoice {
        name: name.to_string(),
        display: encoder_label(name),
    })
}

#[test]
fn the_users_encoder_wins_where_it_exists() {
    let c = choose_encoder(Some("h264_qsv"), true, "h264_nvenc", "H.264 (NVENC)");
    assert_eq!((c.name.as_str(), c.display.as_str()), ("h264_qsv", "H.264 (QSV)"));
    let c = choose_encoder(Some("h264_qsv"), false, "h264_nvenc", "H.264 (NVENC)");
    assert_eq!(c.name, "h264_nvenc");
    let c = choose_encoder(None, true, "h264_nvenc", "H.264 (NVENC)");
    assert_eq!(c.display, "H.264 (NVENC)");
    assert_eq!(encoder_label("mystery"), "mystery");
    assert_eq!(missing_encoder("x"), "x codec not found in FFmpeg");
    assert_eq!(hevc_sibling("h264_amf"), Some("hevc_amf"));
    assert_eq!(hevc_sibling("libx264"), Some("libx265"));
    assert_eq!(hevc_sibling("mystery"), None);
}

#[test]
fn encoders_are_set_up_for_low_latency() {
    assert_eq!(
        encoder_options("libx264"),
        vec![
            ("preset", "ultrafast"),
            ("tune", "zerolatency"),
            ("profile", "baseline")
        ]
    );
    assert!(encoder_options("h264_amf").contains(&("level", "5.1")));
    assert_eq!(encoder_options("h264_nvenc").len(), 5);
    assert_eq!(encoder_options("?"), vec![("profile", "baseline")]);
    // HEVC has no baseline profile.
    for name in ["hevc_nvenc", "hevc_amf", "hevc_qsv", "libx265", "hevc_videotoolbox"] {
        assert!(encoder_options(name).iter().all(|(key, _)| *key != "profile"));
    }
    assert_eq!(
        encoder_options("libx265"),
        vec![("preset", "ultrafast"), ("tune", "zerolatency")]
    );
    assert_eq!(
        encoder_options("hevc_nvenc"),
        vec![("preset", "p1"), ("tune", "ll"), ("zerolatency", "1"), ("rc", "cbr")]
    );
    assert!(encoder_options("hevc_videotoolbox").is_empty());
    let p = encoder_params(1920, 1080, 100, 0, false);
    assert_eq!(p.bit_rate, 500_000);
    assert_eq!((p.gop, p.ticks_per_second, p.frame_rate), (30, 1_000_000, Some(1)));
    let p = encoder_params(1920, 1080, 9_000_000, 30, true);
    assert_eq!((p.bit_rate, p.ticks_per_second, p.frame_rate), (9_000_000, 60, None));
}

#[test]
fn frames_are_considered_in_order_of_urgency() {
    assert_eq!(consider(false, Some(0), 5, 0), Admission::Stop);
    assert_eq!(consider(true, Some(5), 5, 0), Admission::Fault);
    assert_eq!(consider(true, Some(6), 5, 0), Admission::Skip);
    assert_eq!(consider(true, None, 5, 4), Admission::Encode);
    assert_eq!(fault_setting(Some(" 12 ")), Some(12));
    assert_eq!(fault_setting(Some("soon")), None);
    assert!(is_switched_on(Some(" 1 ")));
    assert!(!is_switched_on(Some("11")));
    assert!(!is_switched_on(None));
}

#[test]
fn presentation_times_strictly_increase() {
    let mut c = PtsClock::new(false);
    assert_eq!(c.next(1, 5_000_000), 0);
    assert_eq!(c.next(2, 5_000_000), 1);
    assert_eq!(c.next(3, 5_900_000), 900);
    assert_eq!(c.next(4, 1_000_000), 901);
    let mut legacy = PtsClock::new(true);
    assert_eq!(legacy.next(17, 0), 17);
}

#[test]
fn a_failed_encoder_falls_back_to_software_once() {
    let mut shared = shared();
    let mut e = encoding("h264_amf");
    let goal = e.goal(&shared);
    assert_eq!(
        goal,
        Goal {
            bitrate: 15_000_000,
            codec: CODEC_H264
        }
    );
    assert_eq!(e.plan(goal), OpenPlan::Open);
    assert_eq!(
        e.after_open(&mut shared, OpenPlan::Open, goal, false),
        OpenResult::Fallback
    );
    assert_eq!(e.choice.name, "libx264");
    assert_eq!(e.choice.display, "H.264 (x264)");
    assert!(e.software);
    assert_eq!(
        e.after_open(&mut shared, OpenPlan::Open, goal, false),
        OpenResult::Fatal
    );
}

#[test]
fn a_new_bitrate_reopens_the_session_once() {
    let mut shared = shared();
    let mut e = encoding("libx264");
    let goal = e.goal(&shared);
    assert_eq!(
        e.after_open(&mut shared, OpenPlan::Open, goal, true),
        OpenResult::Ready
    );
    assert!(!shared.force_next_idr);
    assert_eq!(e.plan(goal), OpenPlan::Keep);
    shared.abr_current_bps = 100;
    let lower = e.goal(&shared);
    assert_eq!(lower.bitrate, 500_000);
    assert_eq!(e.plan(lower), OpenPlan::Reopen);
    assert_eq!(
        e.after_open(&mut shared, OpenPlan::Reopen, lower, false),
        OpenResult::Kept
    );
    assert_eq!(e.plan(lower), OpenPlan::Keep);
    shared.abr_current_bps = 8_000_000;
    let other = e.goal(&shared);
    assert_eq!(
        e.after_open(&mut shared, OpenPlan::Reopen, other, true),
        OpenResult::Ready
    );
    assert!(shared.force_next_idr);
    assert_eq!(e.plan(other), OpenPlan::Keep);
}

#[test]
fn hevc_needs_a_willing_client_and_hardware() {
    let mut shared = shared();
    let mut e = encoding("h264_nvenc");
    shared.hevc_enabled = true;
    connect(&mut shared.session, CAP_DECODE_H264 | CAP_DECODE_HEVC);
    // A pipeline starts with H.264.
    let first = e.goal(&shared);
    assert_eq!(first.codec, CODEC_H264);
    e.after_open(&mut shared, OpenPlan::Open, first, true);
    let goal = e.goal(&shared);
    assert_eq!(goal.codec, CODEC_HEVC);
    assert_eq!(e.encoder_for(goal), "hevc_nvenc");
    assert_eq!(e.encoder_for(first), "h264_nvenc");
    e.after_open(&mut shared, OpenPlan::Reopen, goal, true);
    assert_eq!(shared.active_codec, CODEC_HEVC);
    shared.hevc_enabled = false;
    assert_eq!(e.goal(&shared).codec, CODEC_H264);
}

#[test]
fn amf_is_told_to_start_afresh_periodically() {
    let mut e = encoding("h264_amf");
    assert!(e.prepare_frame(true));
    let forced: Vec<bool> = (0..62).map(|_| e.prepare_frame(false)).collect();
    assert_eq!(forced.iter().filter(|f| **f).count(), 2);
    assert!(forced[30] && forced[61]);
    let mut other = encoding("libx264");
    assert!((0..100).all(|_| !other.prepare_frame(false)));
}

#[test]
fn packets_become_access_units() {
    let mut e = encoding("h264_amf");
    let mut state = H264BitstreamState::default();
    let idr = [0, 0, 0, 1, 0x65, 0x88];
    // No parameter sets anywhere: ask again, three times.
    for _ in 0..3 {
        let p = e.finish_packet(&mut state, None, &idr, true, CODEC_H264);
        assert!(p.is_keyframe && p.force_idr);
    }
    let p = e.finish_packet(&mut state, None, &idr, true, CODEC_H264);
    assert!(p.is_keyframe && !p.force_idr);
    // Extradata brings them.
    let extradata = vec![0, 0, 1, 0x67, 1, 0, 0, 1, 0x68, 2];
    let p = e.finish_packet(&mut state, Some(extradata), &idr, false, CODEC_H264);
    assert_eq!(
        p.data,
        vec![0, 0, 0, 1, 0x67, 1, 0, 0, 0, 1, 0x68, 2, 0, 0, 0, 1, 0x65, 0x88]
    );
    assert!(p.is_keyframe);
    // HEVC passes as it is; an IRAP picture is a keyframe.
    let irap = [0, 0, 0, 1, 19 << 1, 1];
    let p = e.finish_packet(&mut state, None, &irap, false, CODEC_HEVC);
    assert_eq!(p.data, irap);
    assert!(p.is_keyframe);
    let p = e.finish_packet(&mut state, None, &[0, 0, 0, 1, 2, 1], false, CODEC_HEVC);
    assert!(!p.is_keyframe);
}

#[test]
fn diagnostics_stop_after_their_limit() {
    assert!(wants_amf_diagnostics("h264_amf", Some("1")));
    assert!(!wants_amf_diagnostics("h264_amf", None));
    assert!(!wants_amf_diagnostics("libx264", Some("1")));
    let mut d = AmfBitstreamDiagnostics::default();
    let delta = [0, 0, 0, 1, 0x41, 0xE0];
    let mut warnings = 0;
    for i in 1..=AMF_CAPTURE_PACKET_LIMIT {
        let o = d.observe_packet(&delta, false);
        assert!(o.capture);
        assert_eq!(o.finish, i == AMF_CAPTURE_PACKET_LIMIT);
        if o.warn {
            warnings += 1;
            assert_eq!(i, 60);
        }
    }
    assert_eq!(warnings, 1);
    let o = d.observe_packet(&[0, 0, 0, 1, 0x65, 1], true);
    assert!(o.first_random_access && o.first_idr && !o.capture);
    assert!(d.validation_complete);
}

// ---- the supervisor --------------------------------------------------------

fn health(generation: u64) -> SupMsg {
    HealthReporter { generation }.stage_exited(
        Stage::Encoder,
        StageOutcome::Failed("boom".to_string()),
    )
}

#[test]
fn waits_double_up_to_a_limit() {
    let mut m = Machine::new(1);
    let mut waits = Vec::new();
    let mut at = NOW;
    for _ in 0..8 {
        at += 100_000_000_000;
        m.on_stage_exit(1, Stage::Capture, &StageOutcome::Failed(String::new()), at);
        match m.state {
            SupervisorState::BackingOff { until, .. } => waits.push(until - at),
            ref other => panic!("{other:?}"),
        }
        m.note_started(1);
    }
    assert_eq!(m.attempt(), 8);
    assert_eq!(waits[0], BACKOFF_BASE);
    assert_eq!(waits[1], 2 * BACKOFF_BASE);
    assert_eq!(waits[5], 32 * BACKOFF_BASE);
    assert_eq!(waits[6], BACKOFF_MAX);
    assert_eq!(waits[7], BACKOFF_MAX);
}

#[test]
fn a_storm_says_why_it_gave_up() {
    let mut m = Machine::new(1);
    for i in 0..=STORM_LIMIT as u64 {
        m.on_stage_exit(
            1,
            Stage::Encoder,
            &StageOutcome::Failed("boom".to_string()),
            NOW + i,
        );
        if i < STORM_LIMIT as u64 {
            m.note_started(1);
        }
    }
    assert_eq!(
        m.state,
        SupervisorState::Failed {
            reason: "Encoder failed repeatedly (6 restarts in 60s): boom".to_string()
        }
    );
    // A stop or a report is not acted on; a shutdown is.
    assert_eq!(m.on_command(&SupervisorCommand::Stop), Effect::Nothing);
    assert_eq!(m.on_wedged("x", NOW), Effect::Nothing);
    assert_eq!(m.on_command(&SupervisorCommand::Shutdown), Effect::Shutdown);
    assert_eq!(m.on_command(&SupervisorCommand::Start), Effect::Nothing);
    assert_eq!(m.on_command(&SupervisorCommand::Restart), Effect::Nothing);
}

#[test]
fn the_watchdog_names_what_is_silent() {
    let mut s = shared();
    let m = Machine::new(1);
    assert_eq!(wedge_reason(&s, &m, 50_000), None);
    s.hb_capture_loop_ms = 46_999;
    assert_eq!(
        wedge_reason(&s, &m, 50_000).unwrap(),
        "capture loop silent for 3001ms"
    );
    s.hb_capture_loop_ms = 50_000;
    s.hb_capture_frame_ms = 44_999;
    assert_eq!(wedge_reason(&s, &m, 50_000), None);
    connect(&mut s.session, CAP_DECODE_H264);
    assert_eq!(
        wedge_reason(&s, &m, 50_000).unwrap(),
        "no captured frame for 5001ms with a client connected"
    );
    s.hb_capture_frame_ms = 49_000;
    s.hb_encode_frame_ms = 45_000;
    assert_eq!(
        wedge_reason(&s, &m, 50_000).unwrap(),
        "encoder silent for 5000ms while capture advances"
    );
}

#[test]
fn the_supervisor_runs_round_by_round() {
    let shared = shared();
    let mut s = Supervisor::new(0, NOW);
    assert_eq!(s.generation, 1);
    assert_eq!(s.step(&Some(health(1)), &shared, NOW, 0), Effect::StopPipeline);
    assert_eq!(s.step(&None, &shared, NOW + 1, 0), Effect::Nothing);
    assert_eq!(
        s.step(&None, &shared, NOW + BACKOFF_BASE, 0),
        Effect::Start
    );
    assert_eq!(s.next_generation(NOW + BACKOFF_BASE), 2);
    assert_eq!(s.machine.state, SupervisorState::Running { generation: 2 });
    assert_eq!(s.machine.attempt(), 1);
    // A report of the first generation means nothing any more.
    assert_eq!(s.step(&Some(health(1)), &shared, NOW, 0), Effect::Nothing);
    // A healthy stretch clears the count of attempts.
    let later = NOW + BACKOFF_BASE + HEALTHY_STRETCH + 1;
    assert_eq!(s.step(&None, &shared, later, 0), Effect::Nothing);
    assert_eq!(s.machine.attempt(), 0);
    assert_eq!(
        s.step(
            &Some(SupMsg::Command(SupervisorCommand::Restart)),
            &shared,
            later,
            0
        ),
        Effect::Restart
    );
}
