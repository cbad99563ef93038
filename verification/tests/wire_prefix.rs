//! The common prefix and the routing of datagrams.

use eternal_monitor::wire::v2::{
    classify, Classified, CommonPrefix, PacketType, WireError, LEGACY_HELLO_MAGIC, PREFIX_SIZE,
};

#[test]
fn prefix_round_trip() {
    let prefix = CommonPrefix {
        packet_type: PacketType::Heartbeat,
        flags: 0x01,
        payload_len: 24,
    };
    let mut buf = [0u8; PREFIX_SIZE];
    prefix.encode_into(&mut buf);
    assert_eq!(&buf[0..2], &[0x45, 0x4D], "magic must be the bytes \"EM\"");
    assert_eq!(buf[2], 2);
    assert_eq!(CommonPrefix::decode(&buf).unwrap(), prefix);
}

#[test]
fn rejects_bad_magic_version_and_type() {
    let mut buf = [0u8; PREFIX_SIZE];
    CommonPrefix {
        packet_type: PacketType::Ping,
        flags: 0,
        payload_len: 8,
    }
    .encode_into(&mut buf);

    let mut bad_magic = buf;
    bad_magic[0] = b'X';
    assert_eq!(CommonPrefix::decode(&bad_magic), Err(WireError::BadMagic));

    let mut bad_version = buf;
    bad_version[2] = 1;
    assert_eq!(
        CommonPrefix::decode(&bad_version),
        Err(WireError::UnsupportedVersion(1))
    );

    let mut bad_type = buf;
    bad_type[3] = 0x66;
    assert_eq!(
        CommonPrefix::decode(&bad_type),
        Err(WireError::UnknownType(0x66))
    );

    assert_eq!(CommonPrefix::decode(&buf[..7]), Err(WireError::Truncated));
}

#[test]
fn classifies_legacy_hello_media_control_and_junk() {
    let mut hello = Vec::from(LEGACY_HELLO_MAGIC);
    hello.extend_from_slice(&9876u16.to_le_bytes());
    assert_eq!(classify(&hello), Classified::LegacyHello);

    let mut media = [0u8; 32];
    CommonPrefix {
        packet_type: PacketType::Media,
        flags: 0b1,
        payload_len: 0,
    }
    .encode_into(&mut media);
    assert_eq!(classify(&media), Classified::Media { flags: 1 });

    let mut ping = [0u8; 24];
    CommonPrefix {
        packet_type: PacketType::Ping,
        flags: 0,
        payload_len: 8,
    }
    .encode_into(&mut ping);
    assert_eq!(classify(&ping), Classified::Control(PacketType::Ping));

    assert_eq!(classify(&[0u8; 3]), Classified::Unknown);
    assert_eq!(classify(&[0xFFu8; 64]), Classified::Unknown);
}
