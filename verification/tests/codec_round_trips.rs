//! Round trips and sizes of every packet kind, and the decode failures.

use classicl_server::client;
use classicl_server::codec::Error;
use classicl_server::server;

fn pad64(s: &[u8]) -> Vec<u8> {
    let mut v = s.to_vec();
    v.resize(64, 0x20);
    v
}

#[test]
fn player_identification_round_trip() {
    let p = client::PlayerIdentification {
        protocol_version: 0x07,
        username: b"alice".to_vec(),
        verification_key: b"".to_vec(),
        unused: 0,
    };
    let b = p.encode();
    assert_eq!(b.len(), 130);
    let q = client::PlayerIdentification::decode(&b).unwrap();
    assert_eq!(q.protocol_version, 0x07);
    assert_eq!(q.username, pad64(b"alice"));
    assert_eq!(q.verification_key, pad64(b""));
    assert_eq!(q.unused, 0);
}

#[test]
fn player_identification_short_buffer_fails() {
    let b = vec![0u8; 129];
    assert_eq!(
        client::PlayerIdentification::decode(&b).unwrap_err(),
        Error::WrongPacket
    );
}

#[test]
fn player_identification_invalid_utf8_fails() {
    let p = client::PlayerIdentification {
        protocol_version: 0x07,
        username: b"alice".to_vec(),
        verification_key: b"".to_vec(),
        unused: 0,
    };
    let mut b = p.encode();
    b[1] = 0xff;
    assert_eq!(
        client::PlayerIdentification::decode(&b).unwrap_err(),
        Error::WrongPacket
    );
}

#[test]
fn client_set_block_round_trip() {
    let p = client::SetBlock {
        x: -2,
        y: 300,
        z: 32767,
        mode: 1,
        block_type: 18,
    };
    let b = p.encode();
    assert_eq!(b.len(), 8);
    let q = client::SetBlock::decode(&b).unwrap();
    assert_eq!(q, p);
}

#[test]
fn client_position_orientation_round_trip() {
    let p = client::PositionOrientation {
        player_id: 255,
        x: -32768,
        y: 0,
        z: 1,
        yaw: 7,
        pitch: 200,
    };
    let b = p.encode();
    assert_eq!(b.len(), 9);
    let q = client::PositionOrientation::decode(&b).unwrap();
    assert_eq!(q, p);
}

#[test]
fn client_message_round_trip() {
    let p = client::Message {
        unused: 0,
        message: b"hello world".to_vec(),
    };
    let b = p.encode();
    assert_eq!(b.len(), 65);
    let q = client::Message::decode(&b).unwrap();
    assert_eq!(q.message, pad64(b"hello world"));
}

#[test]
fn server_identification_round_trip() {
    let p = server::ServerIdentification {
        protocol_version: 0x07,
        server_name: b"Test".to_vec(),
        server_motd: b"motd".to_vec(),
        user_type: 0,
    };
    let b = p.encode();
    assert_eq!(b.len(), 130);
    let q = server::ServerIdentification::decode(&b).unwrap();
    assert_eq!(q.server_name, pad64(b"Test"));
    assert_eq!(q.server_motd, pad64(b"motd"));
    assert_eq!(q.protocol_version, 0x07);
    assert_eq!(q.user_type, 0);
}

#[test]
fn ping_and_level_initialize_are_empty() {
    assert_eq!(server::Ping {}.encode().len(), 0);
    assert_eq!(server::LevelInitialize {}.encode().len(), 0);
    assert!(server::Ping::decode(&vec![]).is_ok());
    assert_eq!(server::Ping::decode(&vec![0]).unwrap_err(), Error::WrongPacket);
}

#[test]
fn level_data_chunk_round_trip() {
    let mut data = vec![9u8; 1000];
    data.resize(1024, 0);
    let p = server::LevelDataChunk {
        chunk_length: 1000,
        chunk_data: data.clone(),
        percent_complete: 42,
    };
    let b = p.encode();
    assert_eq!(b.len(), 1027);
    let q = server::LevelDataChunk::decode(&b).unwrap();
    assert_eq!(q.chunk_length, 1000);
    assert_eq!(q.chunk_data, data);
    assert_eq!(q.percent_complete, 42);
}

#[test]
fn level_finalize_round_trip() {
    let p = server::LevelFinalize {
        x_size: 4,
        y_size: 4,
        z_size: 4,
    };
    let b = p.encode();
    assert_eq!(b.len(), 6);
    assert_eq!(b, vec![0, 4, 0, 4, 0, 4]);
    let q = server::LevelFinalize::decode(&b).unwrap();
    assert_eq!(q, p);
}

#[test]
fn server_set_block_round_trip() {
    let p = server::SetBlock {
        x: 1,
        y: 2,
        z: 3,
        block_type: 18,
    };
    let b = p.encode();
    assert_eq!(b.len(), 7);
    assert_eq!(b, vec![0, 1, 0, 2, 0, 3, 18]);
    let q = server::SetBlock::decode(&b).unwrap();
    assert_eq!(q, p);
}

#[test]
fn spawn_player_round_trip() {
    let p = server::SpawnPlayer {
        player_id: -1,
        player_name: b"alice".to_vec(),
        x: 320,
        y: 358,
        z: 320,
        yaw: 0,
        pitch: 0,
    };
    let b = p.encode();
    assert_eq!(b.len(), 73);
    assert_eq!(b[0], 0xff);
    let q = server::SpawnPlayer::decode(&b).unwrap();
    assert_eq!(q.player_id, -1);
    assert_eq!(q.player_name, pad64(b"alice"));
    assert_eq!(q.x, 320);
    assert_eq!(q.y, 358);
    assert_eq!(q.z, 320);
}

#[test]
fn position_orientation_teleport_round_trip() {
    let p = server::PositionOrientationTeleport {
        player_id: -1,
        x: 10,
        y: -10,
        z: 0,
        yaw: 1,
        pitch: 2,
    };
    let b = p.encode();
    assert_eq!(b.len(), 9);
    let q = server::PositionOrientationTeleport::decode(&b).unwrap();
    assert_eq!(q, p);
}

#[test]
fn position_orientation_update_round_trip() {
    let p = server::PositionOrientationUpdate {
        player_id: 5,
        x: 1,
        y: 2,
        z: 3,
        yaw: 4,
        pitch: 5,
    };
    let b = p.encode();
    assert_eq!(b.len(), 9);
    let q = server::PositionOrientationUpdate::decode(&b).unwrap();
    assert_eq!(q, p);
}

#[test]
fn position_update_round_trip() {
    let p = server::PositionUpdate {
        player_id: 3,
        change_x: -1,
        change_y: 1,
        change_z: 0,
    };
    let b = p.encode();
    assert_eq!(b.len(), 7);
    let q = server::PositionUpdate::decode(&b).unwrap();
    assert_eq!(q, p);
}

#[test]
fn orientation_update_round_trip() {
    let p = server::OrientationUpdate {
        player_id: 2,
        yaw: 90,
        pitch: 180,
    };
    let b = p.encode();
    assert_eq!(b.len(), 3);
    let q = server::OrientationUpdate::decode(&b).unwrap();
    assert_eq!(q, p);
}

#[test]
fn despawn_player_round_trip() {
    let p = server::DespawnPlayer { player_id: -7 };
    let b = p.encode();
    assert_eq!(b.len(), 1);
    let q = server::DespawnPlayer::decode(&b).unwrap();
    assert_eq!(q, p);
}

#[test]
fn server_message_round_trip() {
    let p = server::Message {
        player_id: 1,
        message: b"&7alice:&f hi".to_vec(),
    };
    let b = p.encode();
    assert_eq!(b.len(), 65);
    let q = server::Message::decode(&b).unwrap();
    assert_eq!(q.player_id, 1);
    assert_eq!(q.message, pad64(b"&7alice:&f hi"));
}

#[test]
fn disconnect_player_round_trip() {
    let p = server::DisconnectPlayer {
        disconnect_reason: b"Identification timeout".to_vec(),
    };
    let b = p.encode();
    assert_eq!(b.len(), 64);
    let q = server::DisconnectPlayer::decode(&b).unwrap();
    assert_eq!(q.disconnect_reason, pad64(b"Identification timeout"));
}

#[test]
fn update_user_type_round_trip() {
    let p = server::UpdateUserType { user_type: 0x64 };
    let b = p.encode();
    assert_eq!(b.len(), 1);
    let q = server::UpdateUserType::decode(&b).unwrap();
    assert_eq!(q, p);
}

#[test]
fn encode_truncates_overlong_strings() {
    let p = server::DisconnectPlayer {
        disconnect_reason: vec![0x61; 100],
    };
    let b = p.encode();
    assert_eq!(b.len(), 64);
    assert!(b.iter().all(|&c| c == 0x61));
}
