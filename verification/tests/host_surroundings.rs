//! Adapters, settings, logs, discovery and the control window.

use eternal_monitor::host::autostart::{
    first_lan_ipv4, read_startup_registry, set_startup_registry, UNSUPPORTED,
};
use eternal_monitor::host::capture::OutputInfo;
use eternal_monitor::host::control::{CaptureTarget, SharedControl, VddStatus};
use eternal_monitor::host::discovery::{announcement, hostname};
use eternal_monitor::host::gpu::{
    best_adapter, resolve_encoder, AdapterDesc, EncoderKind, EncoderSet, GpuInfo, GpuVendor,
};
use eternal_monitor::host::gui::{
    byte_unit, connect_url, display_warning, encoder_choice, encoder_labels, encoder_name, format_output_label,
    format_uptime, has_target, listen_text, selected_display, status_detail, value_or_unknown,
    ByteUnit, QrPanel, SettingsPanel,
};
use eternal_monitor::host::logging::{
    feed, interface_bucket, session_log_path, LogBuffer, MdnsDedupFilter, LOG_BUFFER_LIMIT,
};
use eternal_monitor::host::settings::{app_data_dir, SettingsFile};
use eternal_monitor::host::startup::{
    abr_enabled, apply_environment, capture_summary, is_headless, listen_port,
};
use eternal_monitor::host::stats::{calc_fps, PipelineStats, Rate, HISTORY_LEN};
use eternal_monitor::host::transport::session::{HostIp, PeerAddr};
use eternal_monitor::host::vdd::{task_arguments, was_triggered, TASK_DISABLE, TASK_ENABLE};
use std::collections::VecDeque;

const ALL: EncoderSet = EncoderSet {
    nvenc: true,
    amf: true,
    qsv: true,
    videotoolbox: true,
    x264: true,
};

const NONE: EncoderSet = EncoderSet {
    nvenc: false,
    amf: false,
    qsv: false,
    videotoolbox: false,
    x264: false,
};

fn adapter(name: &str, vendor_id: u32, mb: u64, flags: u32) -> AdapterDesc {
    AdapterDesc {
        description: name.encode_utf16().chain([0]).collect(),
        vendor_id,
        dedicated_video_memory: mb * 1024 * 1024,
        flags,
    }
}

fn shared() -> SharedControl {
    SharedControl::new(9876, 15_000_000, 1)
}

fn output(name: &str, left: i32) -> OutputInfo {
    OutputInfo {
        adapter_index: 0,
        output_index: 0,
        device_name: name.to_string(),
        width: 2732,
        height: 2048,
        left,
        top: 0,
        is_primary: left == 0,
        adapter_name: String::new(),
    }
}

// ---- adapters --------------------------------------------------------------

#[test]
fn the_adapter_with_most_memory_is_used() {
    let adapters = [
        adapter("Basic Render", 0x1414, 9000, 2),
        adapter("iGPU", 0x8086, 128, 0),
        adapter("dGPU", 0x1002, 8192, 0),
        adapter("twin", 0x10DE, 8192, 0),
    ];
    assert_eq!(best_adapter(&adapters), Some(2));
    let info = GpuInfo::detect(Some(&adapters), ALL);
    assert_eq!(info.vendor, GpuVendor::Amd);
    assert_eq!(info.vendor.name(), "AMD");
    assert_eq!(info.name, "dGPU");
    assert_eq!(info.adapter_index, 2);
    assert_eq!(info.dedicated_vram_mb, 8192);
    assert_eq!(info.encoder_name, "h264_amf");
    assert_eq!(info.codec_display_name, "H.264 (AMF)");
    assert_eq!(best_adapter(&adapters[..1]), None);
    assert_eq!(GpuInfo::detect(Some(&adapters[..1]), ALL).name, "Software");
    assert_eq!(GpuInfo::detect(None, ALL).encoder_name, "libx264");
}

#[test]
fn encoders_are_tried_in_the_vendors_order() {
    assert_eq!(
        resolve_encoder(GpuVendor::from_vendor_id(0x10DE), ALL),
        EncoderKind::Nvenc
    );
    assert_eq!(
        resolve_encoder(GpuVendor::from_vendor_id(0x8086), ALL),
        EncoderKind::Qsv
    );
    let no_qsv = EncoderSet { qsv: false, ..ALL };
    assert_eq!(
        resolve_encoder(GpuVendor::Intel, no_qsv),
        EncoderKind::Nvenc
    );
    assert_eq!(resolve_encoder(GpuVendor::Unknown, NONE), EncoderKind::X264);
    let mac = GpuInfo::detect_portable("macos", ALL);
    assert_eq!(mac.name, "macos");
    assert_eq!(mac.encoder_name, "h264_videotoolbox");
    assert_eq!(mac.codec_display_name, "H.264 (VideoToolbox)");
    assert_eq!(GpuInfo::detect_portable("macos", NONE).name, "Software");
}

// ---- start-up --------------------------------------------------------------

#[test]
fn the_environment_is_heeded_before_the_first_run() {
    assert_eq!(listen_port(Some("1234")), 1234);
    assert_eq!(listen_port(Some("+80")), 80);
    assert_eq!(listen_port(Some("65536")), 9876);
    assert_eq!(listen_port(Some("x")), 9876);
    assert_eq!(listen_port(None), 9876);
    let mut s = shared();
    apply_environment(&mut s, Some(" h264_amf "), Some("30"), Some("1"));
    assert_eq!(s.encoder_override.as_deref(), Some("h264_amf"));
    assert_eq!(s.target_fps, 30);
    assert!(s.hevc_enabled);
    apply_environment(&mut s, Some("  "), Some("0"), Some("maybe"));
    assert_eq!(s.encoder_override.as_deref(), Some("h264_amf"));
    assert_eq!(s.target_fps, 30);
    assert!(s.hevc_enabled);
    apply_environment(&mut s, None, None, Some("0"));
    assert!(!s.hevc_enabled);
    assert!(abr_enabled(None));
    assert!(!abr_enabled(Some(" 0 ")));
    assert!(is_headless(Some("1")));
    assert!(!is_headless(Some("yes")));
}

#[test]
fn the_banner_names_the_primary_output() {
    assert_eq!(capture_summary(&[]), "unknown");
    assert_eq!(
        capture_summary(&[output("B", 5), output("A", 0)]),
        "A (2732x2048)"
    );
    assert_eq!(capture_summary(&[output("B", 5)]), "B (2732x2048)");
}

#[test]
fn announcements_name_the_host() {
    assert_eq!(hostname(Some("PC"), Some("pc.lan")), Some("PC"));
    assert_eq!(hostname(None, Some("pc.lan")), Some("pc.lan"));
    assert_eq!(hostname(None, None), None);
    let a = announcement(Some("PC"), "0.2.0", true);
    assert_eq!(a.host_fqdn, "PC.local.");
    assert_eq!(a.instance_name, "EternalMonitor (PC)");
    assert_eq!(
        a.properties,
        vec![("version", "0.2.0"), ("proto", "2"), ("platform", "windows")]
    );
    assert_eq!(announcement(None, "1", false).host_fqdn, "eternal-host.local.");
}

#[test]
fn display_tasks_are_triggered_by_name() {
    assert_eq!(task_arguments(true), vec!["/Run", "/TN", TASK_ENABLE]);
    assert_eq!(task_arguments(false), vec!["/Run", "/TN", TASK_DISABLE]);
    assert!(was_triggered(Some(true)));
    assert!(!was_triggered(Some(false)));
    assert!(!was_triggered(None));
}

#[test]
fn only_reachable_addresses_are_shown() {
    assert_eq!(
        first_lan_ipv4(&[[127, 0, 0, 1], [0, 0, 0, 0], [192, 168, 1, 1], [10, 0, 0, 1]]),
        Some([192, 168, 1, 1])
    );
    assert_eq!(first_lan_ipv4(&[[127, 1, 2, 3]]), None);
    assert!(!read_startup_registry());
    assert_eq!(set_startup_registry(true), Err(UNSUPPORTED.to_string()));
}

#[test]
fn paths_fall_back_in_order() {
    assert_eq!(
        app_data_dir(Some("R"), Some("H")).unwrap(),
        vec!["R", "EternalMonitor"]
    );
    assert_eq!(
        app_data_dir(None, Some("H")).unwrap(),
        vec!["H", "Library", "Application Support", "EternalMonitor"]
    );
    assert!(app_data_dir(None, None).is_none());
    assert_eq!(
        session_log_path(None, Some("exe")),
        vec!["exe", "logs", "eternal-host-session.log"]
    );
    assert_eq!(session_log_path(None, None)[0], ".");
}

// ---- statistics ------------------------------------------------------------

#[test]
fn rates_are_taken_over_one_second() {
    let mut stamps = VecDeque::new();
    assert_eq!(calc_fps(&mut stamps, 1_000), Rate { frames: 0, span_ns: 0 });
    assert_eq!(
        calc_fps(&mut stamps, 500_001_000),
        Rate { frames: 1, span_ns: 500_000_000 }
    );
    assert_eq!(
        calc_fps(&mut stamps, 1_000_001_000),
        Rate { frames: 2, span_ns: 1_000_000_000 }
    );
    // The first moment has left the window.
    assert_eq!(
        calc_fps(&mut stamps, 1_000_001_001),
        Rate { frames: 2, span_ns: 500_000_001 }
    );
}

#[test]
fn stages_report_into_the_statistics() {
    let mut s = PipelineStats::default();
    s.mark_pipeline_started(5);
    assert_eq!(s.uptime(1_005), 1_000);
    s.record_capture(640, 360, 10);
    assert_eq!(s.capture_resolution, (640, 360));
    for i in 0..HISTORY_LEN as u128 + 2 {
        s.record_encode(i, 7, 8_000_000, 20);
    }
    assert_eq!(s.encode_time_history.len(), HISTORY_LEN);
    assert_eq!(s.encode_time_history[0], 2);
    assert_eq!(s.bitrate_bps, 8_000_000);
    assert!(s.has_room(100, 3));
    s.record_transport(100, 3, 9, "t".to_string(), 1_000_000_000);
    s.record_transport(50, 1, 8, "t".to_string(), 2_000_000_001);
    assert_eq!(s.window_bytes, 50);
    assert_eq!(s.transport_bytes_sent, 150);
    assert_eq!(s.transport_fragments_sent, 4);
    assert!(!s.has_room(u64::MAX, 0));
    s.reset_connection_stats();
    assert_eq!(s.transport_bytes_sent, 0);
    assert_eq!(s.window_bytes, 0);
    assert_eq!(s.encode_frame_count, HISTORY_LEN as u64 + 2);
    s.mark_pipeline_stopped();
    assert!(!s.pipeline_running);
}

// ---- logs ------------------------------------------------------------------

#[test]
fn bytes_become_lines() {
    let mut pending = Vec::new();
    assert!(feed(&mut pending, b"hel").is_empty());
    assert_eq!(
        feed(&mut pending, b"lo\r\n\nwor"),
        vec![b"hello\r\n".to_vec(), b"\n".to_vec()]
    );
    assert_eq!(pending, b"wor");
}

#[test]
fn the_log_keeps_its_newest_lines() {
    let mut log = LogBuffer::new();
    assert_eq!(log.recent_log_text(5), None);
    assert_eq!(log.push_line(b"first\r\n").as_deref(), Some("first"));
    assert_eq!(log.push_line(b"\r\n"), None);
    assert_eq!(log.push_line(b""), None);
    assert_eq!(log.push_line(&[b'a', 0xFF, b'\n']).as_deref(), Some("a\u{FFFD}"));
    assert_eq!(log.recent_log_text(0).as_deref(), Some("a\u{FFFD}"));
    assert_eq!(log.recent_log_text(9).as_deref(), Some("first\na\u{FFFD}"));
    for i in 0..LOG_BUFFER_LIMIT {
        log.accept(&format!("line {i}"));
    }
    assert_eq!(log.lines.len(), LOG_BUFFER_LIMIT);
    assert_eq!(log.lines[0], "line 0");
    assert_eq!(
        log.session_log_text(Some("on disk".to_string())).as_deref(),
        Some("on disk")
    );
    assert!(log
        .session_log_text(Some(" \n".to_string()))
        .unwrap()
        .starts_with("line 0\nline 1\n"));
}

#[test]
fn failures_are_grouped_by_interface() {
    assert_eq!(
        interface_bucket("Failed to send on interface: Tailscale , err"),
        "Tailscale"
    );
    assert_eq!(
        interface_bucket("Failed to send to fe80::1%eth-0_a: no"),
        "%eth-0_a"
    );
    assert_eq!(interface_bucket("Failed to send to fe80::1%é9 x"), "%é9");
    assert_eq!(interface_bucket("Failed to send 50% done"), "generic");
    assert_eq!(interface_bucket("Failed to send"), "generic");
}

#[test]
fn only_the_first_failure_of_an_interface_is_logged() {
    let mut f = MdnsDedupFilter::new();
    let a = Some("Failed to send to interface A, x");
    assert!(f.event_enabled("mdns_sd", a));
    assert!(!f.event_enabled("mdns_sd", a));
    assert!(f.event_enabled("mdns_sd", Some("Failed to send to interface B, x")));
    assert!(f.event_enabled("other", a));
    assert!(f.event_enabled("mdns_sd", Some("all good")));
    assert!(f.event_enabled("mdns_sd", None));
    assert_eq!(f.seen.len(), 2);
}

// ---- the control window ----------------------------------------------------

#[test]
fn encoder_choices_have_labels() {
    assert_eq!(encoder_labels(), vec!["Auto", "NVENC", "AMF", "QSV", "x264"]);
    for label in encoder_labels() {
        assert_eq!(encoder_choice(encoder_name(label).as_deref()), label);
    }
    assert_eq!(encoder_name("AMF").as_deref(), Some("h264_amf"));
    assert_eq!(encoder_choice(Some("mystery")), "Auto");
}

#[test]
fn displays_are_labelled() {
    assert_eq!(
        format_output_label(&output(r"\\.\DISPLAY3", 2560)),
        "DISPLAY3 · 2732×2048 · +2560,0"
    );
    assert_eq!(
        format_output_label(&output("D", 0)),
        "D · 2732×2048 · +0,0 · primary"
    );
    assert_eq!(
        format_output_label(&output("D", -1920)),
        "D · 2732×2048 · +-1920,0"
    );
    let outputs = [output("D", 0)];
    assert_eq!(selected_display(&outputs, ""), "Auto (primary)");
    assert_eq!(selected_display(&outputs, "E"), "E (not connected)");
    assert_eq!(
        selected_display(&outputs, "virtual"),
        "Extended display (iPad)"
    );
    assert_eq!(
        selected_display(&outputs, "D"),
        "D · 2732×2048 · +0,0 · primary"
    );
}

#[test]
fn a_missing_extended_display_is_told() {
    assert_eq!(
        display_warning(VddStatus::Failed),
        Some("Extended display unavailable")
    );
    assert_eq!(display_warning(VddStatus::Active), None);
    assert_eq!(display_warning(VddStatus::WaitingForClient), None);
    assert_eq!(display_warning(VddStatus::Inactive), None);
}

#[test]
fn values_are_shown_in_words() {
    assert_eq!(value_or_unknown(""), "Unknown");
    assert_eq!(value_or_unknown("x"), "x");
    assert_eq!(format_uptime(3_725_999_999_999), "62m 5s");
    assert_eq!(byte_unit(1_000), ByteUnit::Bytes);
    assert_eq!(byte_unit(1_001), ByteUnit::Kilobytes);
    assert_eq!(byte_unit(1_000_001), ByteUnit::Megabytes);
    assert_eq!(byte_unit(1_000_000_001), ByteUnit::Gigabytes);
    assert!(!has_target("0.0.0.0:9876"));
    assert_eq!(status_detail(true, "1.2.3.4:5").as_deref(), Some("→ 1.2.3.4:5"));
    assert_eq!(status_detail(true, "").as_deref(), Some("waiting for iPad"));
    assert_eq!(status_detail(false, ""), None);
    assert_eq!(listen_text(Some("10.0.0.2"), 9876), "10.0.0.2:9876");
    assert_eq!(listen_text(None, 9876), "unknown:9876");
    assert_eq!(connect_url("a:1", "b:2"), "eternaldisplay://a:1");
    assert_eq!(connect_url("", "b:2"), "eternaldisplay://b:2");
}

#[test]
fn saved_settings_come_into_force() {
    let mut s = shared();
    let addr = PeerAddr {
        ip: HostIp::V4(0x0102_0304),
        port: 5,
    };
    let saved = SettingsFile {
        bitrate_bps: 8_000_000,
        target_fps: 45,
        target_ip: Some("1.2.3.4:5".to_string()),
        encoder_override: Some("h264_qsv".to_string()),
        capture_display: Some("virtual".to_string()),
        start_on_boot: true,
        prefer_hevc: true,
    };
    let panel = SettingsPanel::open(&saved, Some(addr), &mut s, "ignored", false);
    assert_eq!(s.bitrate_bps, 8_000_000);
    assert_eq!(panel.fps_target, 60);
    assert_eq!(s.target_addr, addr);
    assert_eq!(panel.encoder_choice, "QSV");
    assert_eq!(s.encoder_override.as_deref(), Some("h264_qsv"));
    assert_eq!(s.capture_target, CaptureTarget::VirtualExtended);
    assert!(!panel.start_on_boot);
    assert!(panel.prefer_hevc && s.hevc_enabled);
    let back = panel.saved();
    assert_eq!(back.target_ip.as_deref(), Some("1.2.3.4:5"));
    assert_eq!(back.encoder_override.as_deref(), Some("h264_qsv"));
    assert_eq!(back.capture_display.as_deref(), Some("virtual"));
    assert_eq!(back.target_fps, 60);
    assert!(back.prefer_hevc);
    assert!(!SettingsFile::default().prefer_hevc);
    let empty = SettingsPanel::open(&SettingsFile::default(), None, &mut shared(), "", true);
    assert_eq!(empty.target_ip, "");
    assert_eq!(empty.saved().target_ip, None);
    assert_eq!(empty.saved().capture_display, None);
    assert_eq!(empty.saved().encoder_override, None);
}

#[test]
fn the_settings_tab_changes_what_is_in_force() {
    let mut s = shared();
    let mut p = SettingsPanel::open(&SettingsFile::default(), None, &mut s, "", false);
    p.set_bitrate(&mut s, 4_000_000);
    assert_eq!(s.bitrate_bps, 4_000_000);
    assert!(p.set_fps(&mut s, 30));
    assert!(!p.set_fps(&mut s, 30));
    assert_eq!(s.target_fps, 30);
    assert!(p.set_prefer_hevc(&mut s, true));
    assert!(!p.set_prefer_hevc(&mut s, true));
    assert!(s.hevc_enabled);
    assert!(p.set_prefer_hevc(&mut s, false));
    assert!(!s.hevc_enabled && !p.saved().prefer_hevc);
    assert!(!p.apply_target(&mut s, None));
    assert_eq!(p.target_error.as_deref(), Some("Enter host:port"));
    let addr = PeerAddr {
        ip: HostIp::V6(1),
        port: 6,
    };
    assert!(p.apply_target(&mut s, Some(addr)));
    assert_eq!(p.target_error, None);
    assert_eq!(s.target_addr, addr);
    p.adopt_target("0.0.0.0:9876");
    assert_eq!(p.target_ip, "");
    p.adopt_target("9.9.9.9:9");
    p.adopt_target("8.8.8.8:8");
    assert_eq!(p.target_ip, "9.9.9.9:9");
    assert!(p.choose_encoder(&mut s, "x264"));
    assert!(!p.choose_encoder(&mut s, "x264"));
    assert_eq!(s.encoder_override.as_deref(), Some("libx264"));
    assert!(p.choose_encoder(&mut s, "Auto"));
    assert_eq!(s.encoder_override, None);
    assert!(p.choose_display(&mut s, "D"));
    assert_eq!(s.capture_target, CaptureTarget::Output("D".to_string()));
    assert!(p.choose_display(&mut s, ""));
    assert_eq!(s.capture_target, CaptureTarget::PrimaryAuto);
    assert!(!p.set_start_on_boot(true, Err("no".to_string())));
    assert!(!p.start_on_boot);
    assert_eq!(p.target_error.as_deref(), Some("no"));
    assert!(p.set_start_on_boot(true, Ok(())));
    assert!(p.start_on_boot);
}

#[test]
fn the_code_to_scan_is_a_square() {
    let mut panel = QrPanel::new();
    panel.show("eternaldisplay://10.0.0.2:9876");
    let (text, first) = panel.shown.as_ref().unwrap();
    assert_eq!(text, "eternaldisplay://10.0.0.2:9876");
    assert_eq!(first.width, 29);
    assert_eq!(first.modules.len(), 29 * 29);
    // The finder patterns: dark corners, a light ring inside.
    assert!(first.is_dark(0, 0) && first.is_dark(28, 0) && first.is_dark(0, 28));
    assert!(!first.is_dark(1, 1));
    assert!(!first.is_dark(7, 7));
    let before = first.modules.clone();
    panel.show("eternaldisplay://10.0.0.2:9876");
    assert_eq!(panel.shown.as_ref().unwrap().1.modules, before);
    panel.show("eternaldisplay://10.0.0.3:9876");
    assert_ne!(panel.shown.as_ref().unwrap().1.modules, before);
    panel.show(&"x".repeat(4000));
    assert!(panel.shown.is_none());
}
