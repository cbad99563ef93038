//! H.264 bitstreams.

use eternal_monitor::wire::h264::{
    access_unit_is_intra_only, normalize_h264_payload, parameter_sets_from_extradata,
    H264BitstreamState,
};

#[test]
fn parses_parameter_sets_from_avcc_extradata() {
    let extradata = [
        1, 66, 0, 30, 0xFF, 0xE1, 0x00, 0x04, 0x67, 0x42, 0x00, 0x1E, 0x01, 0x00, 0x02, 0x68,
        0xCE,
    ];

    let (sps, pps) = parameter_sets_from_extradata(&extradata).expect("parameter sets");
    assert_eq!(sps, vec![0x67, 0x42, 0x00, 0x1E]);
    assert_eq!(pps, vec![0x68, 0xCE]);
}

#[test]
fn converts_avcc_keyframe_to_annex_b_and_prefixes_cached_parameter_sets() {
    let extradata = [
        1, 66, 0, 30, 0xFF, 0xE1, 0x00, 0x04, 0x67, 0x42, 0x00, 0x1E, 0x01, 0x00, 0x02, 0x68,
        0xCE,
    ];
    let packet = [0x00, 0x00, 0x00, 0x03, 0x65, 0x88, 0x84];

    let mut state = H264BitstreamState::default();
    state.refresh_parameter_sets_from_extradata(Some(extradata.to_vec()));

    let normalized = normalize_h264_payload(&packet, true, &mut state, "h264_amf");
    assert_eq!(
        normalized,
        vec![
            0, 0, 0, 1, 0x67, 0x42, 0x00, 0x1E, 0, 0, 0, 1, 0x68, 0xCE, 0, 0, 0, 1, 0x65, 0x88,
            0x84
        ]
    );
}

#[test]
fn preserves_annex_b_payload_that_already_contains_parameter_sets() {
    let payload = [
        0, 0, 0, 1, 0x67, 0x42, 0x00, 0x1E, 0, 0, 0, 1, 0x68, 0xCE, 0, 0, 0, 1, 0x65, 0x88,
        0x84,
    ];

    let mut state = H264BitstreamState::default();
    let normalized = normalize_h264_payload(&payload, true, &mut state, "h264_nvenc");

    assert_eq!(normalized, payload);
}

#[test]
fn amf_startup_injection_fills_missing_parameter_set_when_only_pps_is_inline() {
    let extradata = [
        1, 66, 0, 30, 0xFF, 0xE1, 0x00, 0x04, 0x67, 0x42, 0x00, 0x1E, 0x01, 0x00, 0x02, 0x68,
        0xCE,
    ];
    let payload = [0, 0, 0, 1, 0x68, 0xCE, 0, 0, 0, 1, 0x41, 0x9A, 0x22];

    let mut state = H264BitstreamState::default();
    state.refresh_parameter_sets_from_extradata(Some(extradata.to_vec()));

    let normalized = normalize_h264_payload(&payload, false, &mut state, "h264_amf");
    assert_eq!(
        normalized,
        vec![
            0, 0, 0, 1, 0x67, 0x42, 0x00, 0x1E, 0, 0, 0, 1, 0x68, 0xCE, 0, 0, 0, 1, 0x41, 0x9A,
            0x22
        ]
    );
}

#[test]
fn amf_does_not_reinject_parameter_sets_mid_stream_on_inter_frame() {
    let extradata = [
        1, 66, 0, 30, 0xFF, 0xE1, 0x00, 0x04, 0x67, 0x42, 0x00, 0x1E, 0x01, 0x00, 0x02, 0x68,
        0xCE,
    ];
    let payload = [0, 0, 0, 1, 0x68, 0xCE, 0, 0, 0, 1, 0x41, 0x9A, 0x22];

    let mut state = H264BitstreamState::default();
    state.refresh_parameter_sets_from_extradata(Some(extradata.to_vec()));
    state.packet_count = 30;

    let normalized = normalize_h264_payload(&payload, false, &mut state, "h264_amf");
    assert_eq!(normalized, payload);
}

#[test]
fn amf_reinjects_parameter_sets_on_every_idr_even_mid_stream() {
    let extradata = [
        1, 66, 0, 30, 0xFF, 0xE1, 0x00, 0x04, 0x67, 0x42, 0x00, 0x1E, 0x01, 0x00, 0x02, 0x68,
        0xCE,
    ];
    let packet = [0x00, 0x00, 0x00, 0x03, 0x65, 0x88, 0x84];

    let mut state = H264BitstreamState::default();
    state.refresh_parameter_sets_from_extradata(Some(extradata.to_vec()));
    state.packet_count = 200;

    let normalized = normalize_h264_payload(&packet, true, &mut state, "h264_amf");
    assert_eq!(
        normalized,
        vec![
            0, 0, 0, 1, 0x67, 0x42, 0x00, 0x1E, 0, 0, 0, 1, 0x68, 0xCE, 0, 0, 0, 1, 0x65, 0x88,
            0x84
        ]
    );
}

#[test]
fn amf_drops_inline_parameter_sets_when_redundantly_prepending() {
    let extradata = [
        1, 66, 0, 30, 0xFF, 0xE1, 0x00, 0x04, 0x67, 0x42, 0x00, 0x1E, 0x01, 0x00, 0x02, 0x68,
        0xCE,
    ];
    // Inline SPS + PPS + IDR. AMF must prepend cached SPS/PPS and drop the inline duplicates.
    let payload = [
        0, 0, 0, 1, 0x67, 0x42, 0x00, 0x1E, 0, 0, 0, 1, 0x68, 0xCE, 0, 0, 0, 1, 0x65, 0x88,
        0x84,
    ];

    let mut state = H264BitstreamState::default();
    state.refresh_parameter_sets_from_extradata(Some(extradata.to_vec()));
    state.packet_count = 50;

    let normalized = normalize_h264_payload(&payload, true, &mut state, "h264_amf");
    // Expect a single SPS + PPS pair followed by IDR — no duplicates.
    assert_eq!(
        normalized,
        vec![
            0, 0, 0, 1, 0x67, 0x42, 0x00, 0x1E, 0, 0, 0, 1, 0x68, 0xCE, 0, 0, 0, 1, 0x65, 0x88,
            0x84
        ]
    );
}

#[test]
fn amf_prepends_parameter_sets_on_forced_non_idr_intra_access_unit() {
    // AMF's forced periodic intra can be an all-I-slice that is NOT an IDR (NAL type 1,
    // slice_type I). It is still a random-access point, so it must carry SPS/PPS even though
    // packet_is_key is false and there is no NAL type 5.
    let extradata = [
        1, 66, 0, 30, 0xFF, 0xE1, 0x00, 0x04, 0x67, 0x42, 0x00, 0x1E, 0x01, 0x00, 0x02, 0x68,
        0xCE,
    ];
    // 0x41 = NAL type 1; 0xB8 decodes to an I slice (see access_unit_is_intra_only tests).
    let payload = [0, 0, 0, 1, 0x41, 0xB8];

    let mut state = H264BitstreamState::default();
    state.refresh_parameter_sets_from_extradata(Some(extradata.to_vec()));
    state.packet_count = 90; // mid-stream, not the startup-inject path

    let normalized = normalize_h264_payload(&payload, false, &mut state, "h264_amf");
    assert_eq!(
        normalized,
        vec![
            0, 0, 0, 1, 0x67, 0x42, 0x00, 0x1E, 0, 0, 0, 1, 0x68, 0xCE, 0, 0, 0, 1, 0x41, 0xB8
        ]
    );
}

#[test]
fn nvenc_keyframe_with_inline_sps_pps_is_passed_through_unchanged() {
    // NVENC path must not be altered by the AMF redundant-prepend behaviour.
    let payload = [
        0, 0, 0, 1, 0x67, 0x42, 0x00, 0x1E, 0, 0, 0, 1, 0x68, 0xCE, 0, 0, 0, 1, 0x65, 0x88,
        0x84,
    ];
    let mut state = H264BitstreamState::default();
    let normalized = normalize_h264_payload(&payload, true, &mut state, "h264_nvenc");
    assert_eq!(normalized, payload);
}

#[test]
fn detects_non_idr_intra_access_unit_as_random_access() {
    let payload = [0, 0, 0, 1, 0x09, 0x30, 0, 0, 0, 1, 0x41, 0xB8];

    assert!(access_unit_is_intra_only(&payload));
}

#[test]
fn rejects_predicted_access_unit_as_random_access() {
    let payload = [0, 0, 0, 1, 0x09, 0x30, 0, 0, 0, 1, 0x41, 0xE0];

    assert!(!access_unit_is_intra_only(&payload));
}
