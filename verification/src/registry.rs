//! The packet registry: the single source of truth mapping each packet
//! kind to its one-byte wire id and its fixed body size, and the read-path
//! dispatcher that turns an id byte and a body into a typed client packet.

use vstd::prelude::*;

use crate::client;
use crate::codec::Error;

verus! {

/// Every packet kind of the protocol, client- and server-originated.
#[derive(Clone, Copy, Debug, PartialEq, Eq, Structural)]
pub enum PacketKind {
    PlayerIdentification,
    ClientSetBlock,
    ClientPositionOrientation,
    ClientMessage,
    ServerIdentification,
    Ping,
    LevelInitialize,
    LevelDataChunk,
    LevelFinalize,
    ServerSetBlock,
    SpawnPlayer,
    PositionOrientationTeleport,
    PositionOrientationUpdate,
    PositionUpdate,
    OrientationUpdate,
    DespawnPlayer,
    ServerMessage,
    DisconnectPlayer,
    UpdateUserType,
}

/// The one-byte wire id of a packet kind.
pub open spec fn spec_id_of(k: PacketKind) -> u8 {
    match k {
        PacketKind::PlayerIdentification => 0x00,
        PacketKind::ClientSetBlock => 0x05,
        PacketKind::ClientPositionOrientation => 0x08,
        PacketKind::ClientMessage => 0x0d,
        PacketKind::ServerIdentification => 0x00,
        PacketKind::Ping => 0x01,
        PacketKind::LevelInitialize => 0x02,
        PacketKind::LevelDataChunk => 0x03,
        PacketKind::LevelFinalize => 0x04,
        PacketKind::ServerSetBlock => 0x06,
        PacketKind::SpawnPlayer => 0x07,
        PacketKind::PositionOrientationTeleport => 0x08,
        PacketKind::PositionOrientationUpdate => 0x09,
        PacketKind::PositionUpdate => 0x0a,
        PacketKind::OrientationUpdate => 0x0b,
        PacketKind::DespawnPlayer => 0x0c,
        PacketKind::ServerMessage => 0x0d,
        PacketKind::DisconnectPlayer => 0x0e,
        PacketKind::UpdateUserType => 0x0f,
    }
}

/// The fixed body size of a packet kind, in bytes, without the id byte.
pub open spec fn spec_size_of(k: PacketKind) -> usize {
    match k {
        PacketKind::PlayerIdentification => 130,
        PacketKind::ClientSetBlock => 8,
        PacketKind::ClientPositionOrientation => 9,
        PacketKind::ClientMessage => 65,
        PacketKind::ServerIdentification => 130,
        PacketKind::Ping => 0,
        PacketKind::LevelInitialize => 0,
        PacketKind::LevelDataChunk => 1027,
        PacketKind::LevelFinalize => 6,
        PacketKind::ServerSetBlock => 7,
        PacketKind::SpawnPlayer => 73,
        PacketKind::PositionOrientationTeleport => 9,
        PacketKind::PositionOrientationUpdate => 9,
        PacketKind::PositionUpdate => 7,
        PacketKind::OrientationUpdate => 3,
        PacketKind::DespawnPlayer => 1,
        PacketKind::ServerMessage => 65,
        PacketKind::DisconnectPlayer => 64,
        PacketKind::UpdateUserType => 1,
    }
}

#[verifier::when_used_as_spec(spec_id_of)]
pub fn id_of(k: PacketKind) -> (r: u8)
    ensures
        r == spec_id_of(k),
{
    match k {
        PacketKind::PlayerIdentification => 0x00,
        PacketKind::ClientSetBlock => 0x05,
        PacketKind::ClientPositionOrientation => 0x08,
        PacketKind::ClientMessage => 0x0d,
        PacketKind::ServerIdentification => 0x00,
        PacketKind::Ping => 0x01,
        PacketKind::LevelInitialize => 0x02,
        PacketKind::LevelDataChunk => 0x03,
        PacketKind::LevelFinalize => 0x04,
        PacketKind::ServerSetBlock => 0x06,
        PacketKind::SpawnPlayer => 0x07,
        PacketKind::PositionOrientationTeleport => 0x08,
        PacketKind::PositionOrientationUpdate => 0x09,
        PacketKind::PositionUpdate => 0x0a,
        PacketKind::OrientationUpdate => 0x0b,
        PacketKind::DespawnPlayer => 0x0c,
        PacketKind::ServerMessage => 0x0d,
        PacketKind::DisconnectPlayer => 0x0e,
        PacketKind::UpdateUserType => 0x0f,
    }
}

#[verifier::when_used_as_spec(spec_size_of)]
pub fn size_of(k: PacketKind) -> (r: usize)
    ensures
        r == spec_size_of(k),
{
    match k {
        PacketKind::PlayerIdentification => 130,
        PacketKind::ClientSetBlock => 8,
        PacketKind::ClientPositionOrientation => 9,
        PacketKind::ClientMessage => 65,
        PacketKind::ServerIdentification => 130,
        PacketKind::Ping => 0,
        PacketKind::LevelInitialize => 0,
        PacketKind::LevelDataChunk => 1027,
        PacketKind::LevelFinalize => 6,
        PacketKind::ServerSetBlock => 7,
        PacketKind::SpawnPlayer => 73,
        PacketKind::PositionOrientationTeleport => 9,
        PacketKind::PositionOrientationUpdate => 9,
        PacketKind::PositionUpdate => 7,
        PacketKind::OrientationUpdate => 3,
        PacketKind::DespawnPlayer => 1,
        PacketKind::ServerMessage => 65,
        PacketKind::DisconnectPlayer => 64,
        PacketKind::UpdateUserType => 1,
    }
}

/// The client-originated packet kind behind an id byte read from the
/// socket, if any.
pub open spec fn spec_client_kind_of_id(id: u8) -> Option<PacketKind> {
    if id == 0x00 {
        Some(PacketKind::PlayerIdentification)
    } else if id == 0x05 {
        Some(PacketKind::ClientSetBlock)
    } else if id == 0x08 {
        Some(PacketKind::ClientPositionOrientation)
    } else if id == 0x0d {
        Some(PacketKind::ClientMessage)
    } else {
        None
    }
}

/// Looks up the kind of a client packet id. The read half uses the kind's
/// size to pull exactly one body off the socket; an unknown id yields
/// `None` and is skipped without a body read.
#[verifier::when_used_as_spec(spec_client_kind_of_id)]
pub fn client_kind_of_id(id: u8) -> (r: Option<PacketKind>)
    ensures
        r == spec_client_kind_of_id(id),
{
    if id == 0x00 {
        Some(PacketKind::PlayerIdentification)
    } else if id == 0x05 {
        Some(PacketKind::ClientSetBlock)
    } else if id == 0x08 {
        Some(PacketKind::ClientPositionOrientation)
    } else if id == 0x0d {
        Some(PacketKind::ClientMessage)
    } else {
        None
    }
}

/// A decoded client-originated packet, tagged by kind.
#[derive(Clone, Debug)]
pub enum ClientPacket {
    PlayerIdentification(client::PlayerIdentification),
    SetBlock(client::SetBlock),
    PositionOrientation(client::PositionOrientation),
    Message(client::Message),
}

/// Decodes the body read for a known client packet id into a typed packet.
/// Fails with `WrongPacket` exactly when the kind's decoder does.
pub fn parse_client_packet(kind: PacketKind, body: &Vec<u8>) -> (r: Result<ClientPacket, Error>)
    requires
        spec_client_kind_of_id(spec_id_of(kind)) == Some(kind),
    ensures
        match r {
            Ok(p) => match p {
                ClientPacket::PlayerIdentification(q) => kind == PacketKind::PlayerIdentification
                    && client::spec_dec_rel_player_identification(body@, q),
                ClientPacket::SetBlock(q) => kind == PacketKind::ClientSetBlock
                    && client::spec_dec_rel_set_block(body@, q),
                ClientPacket::PositionOrientation(q) => kind
                    == PacketKind::ClientPositionOrientation
                    && client::spec_dec_rel_position_orientation(body@, q),
                ClientPacket::Message(q) => kind == PacketKind::ClientMessage
                    && client::spec_dec_rel_message(body@, q),
            },
            Err(e) => e == Error::WrongPacket,
        },
        r is Err <==> match kind {
            PacketKind::PlayerIdentification => !client::spec_dec_ok_player_identification(body@),
            PacketKind::ClientSetBlock => body@.len() != 8,
            PacketKind::ClientPositionOrientation => body@.len() != 9,
            PacketKind::ClientMessage => !client::spec_dec_ok_message(body@),
            _ => true,
        },
        r is Ok ==> body@.len() == spec_size_of(kind),
{
    match kind {
        PacketKind::PlayerIdentification => match client::PlayerIdentification::decode(body) {
            Ok(p) => Ok(ClientPacket::PlayerIdentification(p)),
            Err(e) => Err(e),
        },
        PacketKind::ClientSetBlock => match client::SetBlock::decode(body) {
            Ok(p) => Ok(ClientPacket::SetBlock(p)),
            Err(e) => Err(e),
        },
        PacketKind::ClientPositionOrientation => match client::PositionOrientation::decode(body) {
            Ok(p) => Ok(ClientPacket::PositionOrientation(p)),
            Err(e) => Err(e),
        },
        PacketKind::ClientMessage => match client::Message::decode(body) {
            Ok(p) => Ok(ClientPacket::Message(p)),
            Err(e) => Err(e),
        },
        _ => Err(Error::WrongPacket),
    }
}

} // verus!
