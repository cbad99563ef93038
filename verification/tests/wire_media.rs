//! Media datagrams.

use eternal_monitor::wire::v2::media::{
    fragment_access_unit, is_media_datagram, MediaHeader, MAX_FRAG_COUNT, MAX_MEDIA_PAYLOAD,
    MEDIA_FLAG_KEYFRAME, MEDIA_HEADER_SIZE,
};
use eternal_monitor::wire::v2::{WireError, MAX_DGRAM_SIZE};

fn sample_header() -> MediaHeader {
    MediaHeader {
        session_id: 0xA1B2_C3D4,
        stream_epoch: 7,
        frame_seq: 12_345,
        frag_index: 2,
        frag_count: 9,
        is_keyframe: true,
        capture_ts_us: 0x0000_0123_4567_89AB,
        payload_len: 3,
    }
}

#[test]
fn media_header_round_trip() {
    let mut dgram = vec![0u8; MEDIA_HEADER_SIZE + 3];
    sample_header().encode_into(&mut dgram);
    dgram[32..].copy_from_slice(&[0xAA, 0xBB, 0xCC]);

    let (decoded, payload) = MediaHeader::decode(&dgram).unwrap();
    assert_eq!(decoded, sample_header());
    assert_eq!(payload, &[0xAA, 0xBB, 0xCC]);
}

#[test]
fn media_header_exact_byte_layout() {
    let mut dgram = vec![0u8; MEDIA_HEADER_SIZE + 3];
    sample_header().encode_into(&mut dgram);

    assert_eq!(&dgram[0..2], &[0x45, 0x4D]); // "EM"
    assert_eq!(dgram[2], 2); // version
    assert_eq!(dgram[3], 0x01); // media
    assert_eq!(dgram[4], MEDIA_FLAG_KEYFRAME);
    assert_eq!(dgram[5], 0); // reserved
    assert_eq!(&dgram[6..8], &[3, 0]); // payload_len LE
    assert_eq!(&dgram[8..12], &[0xD4, 0xC3, 0xB2, 0xA1]); // session_id LE
    assert_eq!(&dgram[12..16], &[7, 0, 0, 0]);
    assert_eq!(&dgram[16..20], &[0x39, 0x30, 0, 0]); // 12345 LE
    assert_eq!(&dgram[20..22], &[2, 0]);
    assert_eq!(&dgram[22..24], &[9, 0]);
    assert_eq!(
        &dgram[24..32],
        &[0xAB, 0x89, 0x67, 0x45, 0x23, 0x01, 0x00, 0x00]
    );
}

#[test]
fn media_decode_rejects_invalid_fields() {
    let mut dgram = vec![0u8; MEDIA_HEADER_SIZE + 3];
    sample_header().encode_into(&mut dgram);

    // Truncated below header size.
    assert_eq!(
        MediaHeader::decode(&dgram[..MEDIA_HEADER_SIZE - 1]),
        Err(WireError::Truncated)
    );

    // payload_len disagrees with datagram length.
    assert_eq!(
        MediaHeader::decode(&dgram[..MEDIA_HEADER_SIZE + 2]),
        Err(WireError::LengthMismatch)
    );

    // Zero session id.
    let mut zero_session = dgram.clone();
    zero_session[8..12].copy_from_slice(&[0; 4]);
    assert_eq!(
        MediaHeader::decode(&zero_session),
        Err(WireError::InvalidField("session_id"))
    );

    // Zero epoch.
    let mut zero_epoch = dgram.clone();
    zero_epoch[12..16].copy_from_slice(&[0; 4]);
    assert_eq!(
        MediaHeader::decode(&zero_epoch),
        Err(WireError::InvalidField("stream_epoch"))
    );

    // frag_index >= frag_count.
    let mut bad_index = dgram.clone();
    bad_index[20..22].copy_from_slice(&9u16.to_le_bytes());
    assert_eq!(
        MediaHeader::decode(&bad_index),
        Err(WireError::InvalidField("frag_index"))
    );

    // Zero frag_count.
    let mut zero_count = dgram.clone();
    zero_count[20..22].copy_from_slice(&0u16.to_le_bytes());
    zero_count[22..24].copy_from_slice(&0u16.to_le_bytes());
    assert_eq!(
        MediaHeader::decode(&zero_count),
        Err(WireError::InvalidField("frag_count"))
    );

    // frag_count above the 4 MiB cap.
    let mut huge_count = dgram.clone();
    huge_count[20..22].copy_from_slice(&0u16.to_le_bytes());
    huge_count[22..24].copy_from_slice(&(MAX_FRAG_COUNT + 1).to_le_bytes());
    assert_eq!(
        MediaHeader::decode(&huge_count),
        Err(WireError::InvalidField("frag_count"))
    );
}

#[test]
fn fragments_split_and_carry_full_metadata() {
    let payload: Vec<u8> = (0..u32::try_from(MAX_MEDIA_PAYLOAD * 2 + 100).unwrap())
        .map(|i| (i % 251) as u8)
        .collect();
    let datagrams = fragment_access_unit(
        MediaHeader {
            frag_index: 0,
            frag_count: 0,
            payload_len: 0,
            ..sample_header()
        },
        &payload,
    )
    .unwrap();

    assert_eq!(datagrams.len(), 3);
    assert_eq!(datagrams[0].len(), MAX_DGRAM_SIZE);
    assert_eq!(datagrams[2].len(), MEDIA_HEADER_SIZE + 100);

    let mut reassembled = Vec::new();
    for (i, dgram) in datagrams.iter().enumerate() {
        let (header, chunk) = MediaHeader::decode(dgram).unwrap();
        assert_eq!(header.frag_index as usize, i);
        assert_eq!(header.frag_count, 3);
        assert_eq!(header.frame_seq, 12_345);
        assert!(header.is_keyframe);
        reassembled.extend_from_slice(chunk);
    }
    assert_eq!(reassembled, payload);
}

#[test]
fn empty_payload_still_emits_one_fragment() {
    let datagrams = fragment_access_unit(
        MediaHeader {
            frag_index: 0,
            frag_count: 0,
            payload_len: 0,
            ..sample_header()
        },
        &[],
    )
    .unwrap();
    assert_eq!(datagrams.len(), 1);
    let (header, chunk) = MediaHeader::decode(&datagrams[0]).unwrap();
    assert_eq!(header.frag_count, 1);
    assert!(chunk.is_empty());
}
