//! The capture stage.

use eternal_monitor::host::capture::synthetic::{
    decode_frame_counter_from_bgra, decode_frame_counter_from_luma, render_synthetic_frame,
    synthetic_size,
};
use eternal_monitor::host::capture::{pick_new_virtual_output, resolve_target, OutputInfo};
use eternal_monitor::host::control::CaptureTarget;

fn out(name: &str, left: i32, top: i32) -> OutputInfo {
    OutputInfo {
        adapter_index: 0,
        output_index: 0,
        device_name: name.to_string(),
        width: 1920,
        height: 1080,
        left,
        top,
        is_primary: left == 0 && top == 0,
        adapter_name: "Test GPU".to_string(),
    }
}

#[test]
fn primary_auto_picks_origin_output() {
    let outputs = vec![out(r"\\.\DISPLAY2", 2560, 0), out(r"\\.\DISPLAY1", 0, 0)];
    let idx = resolve_target(&outputs, &CaptureTarget::PrimaryAuto).unwrap();
    assert_eq!(outputs[idx].device_name, r"\\.\DISPLAY1");
}

#[test]
fn known_output_is_selected() {
    let outputs = vec![out(r"\\.\DISPLAY1", 0, 0), out(r"\\.\DISPLAY3", 2560, 0)];
    let target = CaptureTarget::Output(r"\\.\DISPLAY3".to_string());
    let idx = resolve_target(&outputs, &target).unwrap();
    assert_eq!(outputs[idx].device_name, r"\\.\DISPLAY3");
}

#[test]
fn unknown_output_falls_back_to_primary() {
    let outputs = vec![out(r"\\.\DISPLAY1", 0, 0), out(r"\\.\DISPLAY2", 2560, 0)];
    let target = CaptureTarget::Output(r"\\.\DISPLAY9".to_string());
    let idx = resolve_target(&outputs, &target).unwrap();
    assert!(outputs[idx].is_primary);
}

#[test]
fn empty_outputs_returns_none() {
    assert!(resolve_target(&[], &CaptureTarget::PrimaryAuto).is_none());
}

#[test]
fn picks_only_a_genuinely_new_non_primary_output() {
    // A real second monitor existed before we enabled the VDD; it must NOT be chosen.
    let before = vec![r"\\.\DISPLAY1".to_string(), r"\\.\DISPLAY2".to_string()];
    let now = vec![
        out(r"\\.\DISPLAY1", 0, 0),
        out(r"\\.\DISPLAY2", 2560, 0),
        out(r"\\.\DISPLAY3", -1920, 0), // freshly-attached VDD
    ];
    let chosen = pick_new_virtual_output(&before, &now).expect("new output");
    assert_eq!(chosen.device_name, r"\\.\DISPLAY3");
}

#[test]
fn returns_none_when_only_preexisting_second_monitor_present() {
    // The VDD hasn't attached yet — must keep polling, never grab the existing DISPLAY2.
    let before = vec![r"\\.\DISPLAY1".to_string(), r"\\.\DISPLAY2".to_string()];
    let now = vec![out(r"\\.\DISPLAY1", 0, 0), out(r"\\.\DISPLAY2", 2560, 0)];
    assert!(pick_new_virtual_output(&before, &now).is_none());
}

#[test]
fn ignores_a_new_primary_output() {
    // Even if a new output appears, the primary (origin) one is never the virtual display.
    let before: Vec<String> = vec![];
    let now = vec![out(r"\\.\DISPLAY1", 0, 0)];
    assert!(pick_new_virtual_output(&before, &now).is_none());
}

#[test]
fn frame_counter_round_trips_through_bgra() {
    let (w, h) = (640u32, 360u32);
    let mut buf = vec![0u8; (w * h * 4) as usize];
    for frame in [1u64, 2, 3, 42, 255, 4095, 0xFF_FFFF] {
        render_synthetic_frame(&mut buf, w, h, frame);
        assert_eq!(
            decode_frame_counter_from_bgra(&buf, w),
            frame & 0xFF_FFFF,
            "counter must round-trip for frame {frame}"
        );
    }
}

#[test]
fn counter_survives_mild_blur() {
    // Simulate encoder softness: average each sampled pixel with neighbors
    // and confirm thresholding still recovers the value.
    let (w, h) = (640u32, 360u32);
    let mut buf = vec![0u8; (w * h * 4) as usize];
    render_synthetic_frame(&mut buf, w, h, 0b1010_1100_0011);

    let row_bytes = (w * 4) as usize;
    let mut luma = vec![0u8; (w * h) as usize];
    for y in 0..h as usize {
        for x in 0..w as usize {
            let g = buf[y * row_bytes + x * 4 + 1] as u16;
            let left = buf[y * row_bytes + x.saturating_sub(1) * 4 + 1] as u16;
            luma[y * w as usize + x] = ((g + left) / 2) as u8;
        }
    }
    assert_eq!(
        decode_frame_counter_from_luma(&luma, w as usize, w),
        0b1010_1100_0011
    );
}

#[test]
fn synthetic_size_parses_and_bounds() {
    // Not touching the env var here (tests run in parallel) — just the default.
    assert_eq!(synthetic_size(None), (1280, 720));
}
