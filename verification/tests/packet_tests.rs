use voxel_core::fixed_string::IntoMinecraftString;
use voxel_core::packets::C2sMessage;
use voxel_core::packets::C2sPlayerIdentification;
use voxel_core::packets::Coordinate;
use voxel_core::packets::ProtocolError;
use voxel_core::packets::S2cHandshake;
use voxel_core::packets::S2cLevelDataChunk;
use voxel_core::packets::S2cLevelFinalize;
use voxel_core::packets::S2cLevelInitialize;
use voxel_core::packets::S2cMessage;
use voxel_core::packets::S2cSpawnPlayer;

#[test]
fn identification_round_trip() {
    let p = C2sPlayerIdentification {
        protocol_version: 0x07,
        username: String::from("Alice").to_mcstring(),
        verification_key: "k".repeat(64).to_mcstring(),
    };
    let bytes = p.encode();
    assert_eq!(bytes.len(), 130);
    assert_eq!(bytes[0], 0x00);
    assert_eq!(C2sPlayerIdentification::decode(&bytes), Ok(p));
}

#[test]
fn c2s_message_round_trip_boundary_ids() {
    for pid in [-128i8, -1, 0, 127] {
        let p = C2sMessage { player_id: pid, message: String::from("hi there").to_mcstring() };
        let bytes = p.encode();
        assert_eq!(bytes.len(), 66);
        assert_eq!(bytes[0], 0x0d);
        assert_eq!(C2sMessage::decode(&bytes), Ok(p));
    }
}

#[test]
fn handshake_round_trip() {
    let p = S2cHandshake::new(
        0x07,
        String::from("Test Server").to_mcstring(),
        String::from("Test MOTD").to_mcstring(),
        0x00,
    );
    let bytes = p.encode();
    assert_eq!(bytes.len(), 131);
    assert_eq!(bytes[0], 0x00);
    assert_eq!(S2cHandshake::decode(&bytes), Ok(p));
}

#[test]
fn level_initialize_round_trip() {
    let p = S2cLevelInitialize {};
    let bytes = p.encode();
    assert_eq!(bytes, vec![0x02]);
    assert_eq!(S2cLevelInitialize::decode(&bytes), Ok(p));
}

#[test]
fn level_data_chunk_round_trip() {
    let mut data = [0u8; 1024];
    for (i, b) in data.iter_mut().enumerate() {
        *b = (i % 251) as u8;
    }
    let p = S2cLevelDataChunk::new(1024, data, 100);
    let bytes = p.encode();
    assert_eq!(bytes.len(), 1028);
    assert_eq!(bytes[0], 0x03);
    assert_eq!(bytes[1], 0x04);
    assert_eq!(bytes[2], 0x00);
    assert_eq!(bytes[1027], 100);
    assert_eq!(S2cLevelDataChunk::decode(&bytes), Ok(p.clone()));
}

#[test]
fn level_finalize_round_trip_and_exact_bytes() {
    let p = S2cLevelFinalize::new(16, 16, 16);
    let bytes = p.encode();
    assert_eq!(bytes, vec![0x04, 0x00, 0x10, 0x00, 0x10, 0x00, 0x10]);
    assert_eq!(S2cLevelFinalize::decode(&bytes), Ok(p.clone()));

    let q = S2cLevelFinalize::new(i16::MAX, 1, -1);
    let qb = q.encode();
    assert_eq!(qb, vec![0x04, 0x7f, 0xff, 0x00, 0x01, 0xff, 0xff]);
    assert_eq!(S2cLevelFinalize::decode(&qb), Ok(q.clone()));
}

#[test]
fn s2c_message_round_trip_self_echo_id() {
    let p = S2cMessage::new(-1, String::from("hello all").to_mcstring());
    let bytes = p.encode();
    assert_eq!(bytes.len(), 66);
    assert_eq!(bytes[0], 0x06);
    assert_eq!(bytes[1], 0xff);
    assert_eq!(S2cMessage::decode(&bytes), Ok(p));
}

#[test]
fn spawn_player_round_trip() {
    let p = S2cSpawnPlayer::new(
        5,
        String::from("Bob").to_mcstring(),
        Coordinate { bits: -32 },
        Coordinate { bits: 0x1234 },
        Coordinate { bits: 32 },
        90,
        180,
    );
    let bytes = p.encode();
    assert_eq!(bytes.len(), 74);
    assert_eq!(bytes[0], 0x07);
    // -32 as fixed-point bits, big-endian two's complement
    assert_eq!(bytes[66], 0xff);
    assert_eq!(bytes[67], 0xe0);
    assert_eq!(bytes[68], 0x12);
    assert_eq!(bytes[69], 0x34);
    assert_eq!(S2cSpawnPlayer::decode(&bytes), Ok(p));
}

#[test]
fn decode_empty_buffer_is_truncated() {
    assert_eq!(C2sMessage::decode(&[]), Err(ProtocolError::TruncatedPacket));
    assert_eq!(C2sPlayerIdentification::decode(&[]), Err(ProtocolError::TruncatedPacket));
}

#[test]
fn decode_wrong_id_is_unexpected() {
    assert_eq!(
        C2sPlayerIdentification::decode(&[0x0d, 0, 0]),
        Err(ProtocolError::UnexpectedPacketId { expected: 0x00, got: 0x0d })
    );
    assert_eq!(
        C2sMessage::decode(&[0x42]),
        Err(ProtocolError::UnexpectedPacketId { expected: 0x0d, got: 0x42 })
    );
}

#[test]
fn decode_short_body_is_truncated() {
    let mut bytes = vec![0x0d, 0x01];
    bytes.extend_from_slice(&[0x20; 10]);
    assert_eq!(C2sMessage::decode(&bytes), Err(ProtocolError::TruncatedPacket));
}

#[test]
fn decode_ignores_trailing_bytes() {
    let p = C2sMessage { player_id: 3, message: String::from("chat").to_mcstring() };
    let mut bytes = p.encode();
    bytes.extend_from_slice(&[0xaa, 0xbb]);
    assert_eq!(C2sMessage::decode(&bytes), Ok(p));
}

#[test]
fn coordinate_from_blocks_uses_five_fraction_bits() {
    let c = Coordinate::from_blocks(3);
    assert_eq!(c.bits, 96);
    assert_eq!(Coordinate::zero().bits, 0);
    assert_eq!(Coordinate::from_blocks(-2).bits, -64);
}
