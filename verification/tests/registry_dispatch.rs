//! The packet registry and the read-path dispatcher.

use classicl_server::client;
use classicl_server::registry::{
    client_kind_of_id, id_of, parse_client_packet, size_of, ClientPacket, PacketKind,
};

#[test]
fn ids_and_sizes_match_the_protocol() {
    assert_eq!(id_of(PacketKind::PlayerIdentification), 0x00);
    assert_eq!(size_of(PacketKind::PlayerIdentification), 130);
    assert_eq!(id_of(PacketKind::ClientSetBlock), 0x05);
    assert_eq!(size_of(PacketKind::ClientSetBlock), 8);
    assert_eq!(id_of(PacketKind::ClientPositionOrientation), 0x08);
    assert_eq!(size_of(PacketKind::ClientPositionOrientation), 9);
    assert_eq!(id_of(PacketKind::ClientMessage), 0x0d);
    assert_eq!(size_of(PacketKind::ClientMessage), 65);
    assert_eq!(id_of(PacketKind::ServerIdentification), 0x00);
    assert_eq!(size_of(PacketKind::ServerIdentification), 130);
    assert_eq!(id_of(PacketKind::Ping), 0x01);
    assert_eq!(size_of(PacketKind::Ping), 0);
    assert_eq!(id_of(PacketKind::LevelInitialize), 0x02);
    assert_eq!(id_of(PacketKind::LevelDataChunk), 0x03);
    assert_eq!(size_of(PacketKind::LevelDataChunk), 1027);
    assert_eq!(id_of(PacketKind::LevelFinalize), 0x04);
    assert_eq!(size_of(PacketKind::LevelFinalize), 6);
    assert_eq!(id_of(PacketKind::ServerSetBlock), 0x06);
    assert_eq!(size_of(PacketKind::ServerSetBlock), 7);
    assert_eq!(id_of(PacketKind::SpawnPlayer), 0x07);
    assert_eq!(size_of(PacketKind::SpawnPlayer), 73);
    assert_eq!(id_of(PacketKind::PositionOrientationTeleport), 0x08);
    assert_eq!(id_of(PacketKind::PositionOrientationUpdate), 0x09);
    assert_eq!(id_of(PacketKind::PositionUpdate), 0x0a);
    assert_eq!(size_of(PacketKind::PositionUpdate), 7);
    assert_eq!(id_of(PacketKind::OrientationUpdate), 0x0b);
    assert_eq!(size_of(PacketKind::OrientationUpdate), 3);
    assert_eq!(id_of(PacketKind::DespawnPlayer), 0x0c);
    assert_eq!(size_of(PacketKind::DespawnPlayer), 1);
    assert_eq!(id_of(PacketKind::ServerMessage), 0x0d);
    assert_eq!(size_of(PacketKind::ServerMessage), 65);
    assert_eq!(id_of(PacketKind::DisconnectPlayer), 0x0e);
    assert_eq!(size_of(PacketKind::DisconnectPlayer), 64);
    assert_eq!(id_of(PacketKind::UpdateUserType), 0x0f);
    assert_eq!(size_of(PacketKind::UpdateUserType), 1);
}

#[test]
fn client_lookup_knows_the_four_inbound_kinds() {
    assert_eq!(client_kind_of_id(0x00), Some(PacketKind::PlayerIdentification));
    assert_eq!(client_kind_of_id(0x05), Some(PacketKind::ClientSetBlock));
    assert_eq!(client_kind_of_id(0x08), Some(PacketKind::ClientPositionOrientation));
    assert_eq!(client_kind_of_id(0x0d), Some(PacketKind::ClientMessage));
    assert_eq!(client_kind_of_id(0x01), None);
    assert_eq!(client_kind_of_id(0xff), None);
}

#[test]
fn dispatcher_decodes_by_kind() {
    let p = client::SetBlock {
        x: 5,
        y: 6,
        z: 7,
        mode: 1,
        block_type: 2,
    };
    let body = p.encode();
    match parse_client_packet(PacketKind::ClientSetBlock, &body).unwrap() {
        ClientPacket::SetBlock(q) => assert_eq!(q, p),
        other => panic!("wrong kind: {:?}", other),
    }
    assert!(parse_client_packet(PacketKind::ClientMessage, &body).is_err());
}
