//! The clock, the shared state, statistics, and version 1 headers of the host.

use eternal_monitor::host::clock::{host_now_us, instant_to_us};
use eternal_monitor::host::control::SharedControl;
use eternal_monitor::host::stats::PipelineStats;
use eternal_monitor::host::transport::fragment::FragmentHeader;
use eternal_monitor::host::transport::session::{HostIp, PeerAddr};
use std::time::Instant;

#[test]
fn clock_is_monotonic_and_consistent() {
    let zero = Instant::now();
    let now = || zero.elapsed().as_nanos() as u64;
    let epoch = now();
    let a = host_now_us(epoch, now());
    let instant = now();
    let b = instant_to_us(epoch, instant);
    let c = host_now_us(epoch, now());
    assert!(a <= b, "{a} <= {b}");
    assert!(b <= c, "{b} <= {c}");
}

#[test]
fn client_connected_requires_a_session_not_just_an_address() {
    let mut shared = SharedControl::new(9876, 15_000_000, 1234);
    assert!(!shared.client_connected(), "no session, no client");

    // A target address on its own — a persisted setting, or a leftover
    // from a client that has since gone — must not read as "connected".
    // It used to, which held the virtual display up and kept the capture
    // loop at full rate with nobody watching.
    shared.target_addr = PeerAddr {
        ip: HostIp::V4(u32::from_be_bytes([192, 168, 1, 50])),
        port: 9876,
    };
    assert!(!shared.client_connected());
}

#[test]
fn reset_for_restart_preserves_runtime_configuration() {
    let mut stats = PipelineStats::new();
    stats.gpu_name = "GPU".to_string();
    stats.listen_addr = "192.168.1.10:9876".to_string();
    stats.target_addr = "10.0.0.1:9876".to_string();
    stats.bitrate_bps = 15_000_000;
    stats.codec_name = "H.264".to_string();
    stats.using_software_fallback = true;
    stats.mdns_active = true;
    stats.capture_frame_count = 10;
    stats.encode_frame_count = 8;
    stats.transport_packets_sent = 5;
    stats.encode_time_history.push_back(3_200);

    stats.reset_for_restart();

    assert_eq!(stats.gpu_name, "GPU");
    assert_eq!(stats.listen_addr, "192.168.1.10:9876");
    assert_eq!(stats.target_addr, "10.0.0.1:9876");
    assert_eq!(stats.bitrate_bps, 15_000_000);
    assert_eq!(stats.codec_name, "H.264");
    assert!(stats.using_software_fallback);
    assert!(stats.mdns_active);
    assert_eq!(stats.capture_frame_count, 0);
    assert_eq!(stats.encode_frame_count, 0);
    assert_eq!(stats.transport_packets_sent, 0);
    assert!(stats.encode_time_history.is_empty());
}

#[test]
fn fragment_header_round_trip() {
    let header = FragmentHeader {
        seq: 0xDEAD_BEEF,
        fragment_index: 3,
        fragment_count: 7,
        payload_len: 1388,
    };
    let bytes = header.to_bytes();
    let recovered = FragmentHeader::from_bytes(&bytes);
    assert_eq!(recovered.seq, header.seq);
    assert_eq!(recovered.fragment_index, header.fragment_index);
    assert_eq!(recovered.fragment_count, header.fragment_count);
    assert_eq!(recovered.payload_len, header.payload_len);
}

#[test]
fn default_statistics_are_those_of_a_pipeline_not_started() {
    let s = PipelineStats::default();
    assert!(s.listen_addr.is_empty() && s.gpu_name.is_empty() && s.capture_display.is_empty());
    assert!(s.codec_name.is_empty() && s.target_addr.is_empty());
    assert_eq!(s.bitrate_bps, 0);
    assert!(!s.using_software_fallback && !s.mdns_active);
}
