//! HEVC bitstreams.

use eternal_monitor::wire::hevc::{
    contains_keyframe, contains_parameter_sets, NAL_CRA, NAL_IDR_N_LP, NAL_IDR_W_RADL, NAL_PPS,
    NAL_SPS, NAL_VPS,
};

/// Build an Annex B stream from HEVC NAL types (2-byte headers).
fn stream(types: &[u8]) -> Vec<u8> {
    let mut out = Vec::new();
    for &t in types {
        out.extend_from_slice(&[0, 0, 0, 1, t << 1, 0x01, 0xAA]);
    }
    out
}

#[test]
fn detects_irap_types() {
    assert!(contains_keyframe(&stream(&[
        NAL_VPS,
        NAL_SPS,
        NAL_PPS,
        NAL_IDR_W_RADL
    ])));
    assert!(contains_keyframe(&stream(&[NAL_CRA])));
    assert!(!contains_keyframe(&stream(&[1]))); // trailing picture
}

#[test]
fn detects_parameter_sets() {
    assert!(contains_parameter_sets(&stream(&[
        NAL_VPS,
        NAL_SPS,
        NAL_PPS,
        NAL_IDR_N_LP
    ])));
    assert!(!contains_parameter_sets(&stream(&[
        NAL_SPS,
        NAL_PPS,
        NAL_IDR_N_LP
    ])));
}

#[test]
fn three_byte_start_codes_work() {
    let mut data = vec![0, 0, 1, NAL_IDR_W_RADL << 1, 0x01];
    data.extend_from_slice(&[0, 0, 1, 1 << 1, 0x01]);
    assert!(contains_keyframe(&data));
}
