//! Server-to-client packets: fixed-size records with their exact byte
//! layout, an encoder and a decoder for each, and round-trip proofs.
//!
//! String fields hold raw wire bytes; on the wire they occupy 64 bytes,
//! space-padded. The level-data chunk carries exactly 1024 payload bytes,
//! zero-padded by the streamer.

use vstd::prelude::*;

use crate::codec::{
    be16, enc_i16, enc_i8, enc_padded, enc_u8, i16_from_be, is_utf8, lemma_be16_round_trip,
    lemma_i8_round_trip, lemma_space_padded_utf8, read_chunk, read_i16, read_i8, read_u8,
    space_padded64, check_utf8, Error,
};

verus! {

/// The greeting the server sends on accept.
#[derive(Clone, Debug)]
pub struct ServerIdentification {
    pub protocol_version: u8,
    pub server_name: Vec<u8>,
    pub server_motd: Vec<u8>,
    pub user_type: u8,
}

pub open spec fn wf_server_identification(p: ServerIdentification) -> bool {
    &&& is_utf8(p.server_name@)
    &&& p.server_name@.len() <= 64
    &&& is_utf8(p.server_motd@)
    &&& p.server_motd@.len() <= 64
}

pub open spec fn spec_enc_server_identification(p: ServerIdentification) -> Seq<u8> {
    seq![p.protocol_version] + space_padded64(p.server_name@) + space_padded64(p.server_motd@)
        + seq![p.user_type]
}

pub open spec fn spec_dec_ok_server_identification(b: Seq<u8>) -> bool {
    &&& b.len() == 130
    &&& is_utf8(b.subrange(1, 65))
    &&& is_utf8(b.subrange(65, 129))
}

impl ServerIdentification {
    pub fn encode(&self) -> (r: Vec<u8>)
        ensures
            r@ == spec_enc_server_identification(*self),
            r@.len() == 130,
    {
        let mut out: Vec<u8> = Vec::new();
        enc_u8(&mut out, self.protocol_version);
        enc_padded(&mut out, &self.server_name, 64, 0x20);
        enc_padded(&mut out, &self.server_motd, 64, 0x20);
        enc_u8(&mut out, self.user_type);
        assert(out@ =~= spec_enc_server_identification(*self));
        out
    }

    pub fn decode(b: &Vec<u8>) -> (r: Result<Self, Error>)
        ensures
            match r {
                Ok(p) => {
                    &&& spec_dec_ok_server_identification(b@)
                    &&& p.protocol_version == b@[0]
                    &&& p.server_name@ == b@.subrange(1, 65)
                    &&& p.server_motd@ == b@.subrange(65, 129)
                    &&& p.user_type == b@[129]
                },
                Err(e) => e == Error::WrongPacket && !spec_dec_ok_server_identification(b@),
            },
    {
        if b.len() != 130 {
            return Err(Error::WrongPacket);
        }
        let server_name = read_chunk(b, 1, 64);
        if !check_utf8(&server_name) {
            return Err(Error::WrongPacket);
        }
        let server_motd = read_chunk(b, 65, 64);
        if !check_utf8(&server_motd) {
            return Err(Error::WrongPacket);
        }
        Ok(ServerIdentification {
            protocol_version: read_u8(b, 0),
            server_name,
            server_motd,
            user_type: read_u8(b, 129),
        })
    }
}

/// Codec round trip: the encoding of a well-formed record is 130 bytes,
/// decodes successfully, and yields the record back with its string fields
/// space-padded to 64 bytes.
pub proof fn lemma_server_identification_round_trip(p: ServerIdentification)
    requires
        wf_server_identification(p),
    ensures
        ({
            let b = spec_enc_server_identification(p);
            &&& b.len() == 130
            &&& spec_dec_ok_server_identification(b)
            &&& b[0] == p.protocol_version
            &&& b.subrange(1, 65) == space_padded64(p.server_name@)
            &&& b.subrange(65, 129) == space_padded64(p.server_motd@)
            &&& b[129] == p.user_type
        }),
{
    let b = spec_enc_server_identification(p);
    assert(b.subrange(1, 65) =~= space_padded64(p.server_name@));
    assert(b.subrange(65, 129) =~= space_padded64(p.server_motd@));
    lemma_space_padded_utf8(p.server_name@);
    lemma_space_padded_utf8(p.server_motd@);
}

/// A keep-alive with an empty body.
#[derive(Clone, Copy, Debug, PartialEq, Eq, Structural)]
pub struct Ping {}

impl Ping {
    pub fn encode(&self) -> (r: Vec<u8>)
        ensures
            r@ == Seq::<u8>::empty(),
    {
        let out: Vec<u8> = Vec::new();
        assert(out@ =~= Seq::<u8>::empty());
        out
    }

    pub fn decode(b: &Vec<u8>) -> (r: Result<Self, Error>)
        ensures
            match r {
                Ok(p) => b@.len() == 0,
                Err(e) => e == Error::WrongPacket && b@.len() != 0,
            },
    {
        if b.len() != 0 {
            return Err(Error::WrongPacket);
        }
        Ok(Ping {})
    }
}

/// Announces that the level transfer begins; empty body.
#[derive(Clone, Copy, Debug, PartialEq, Eq, Structural)]
pub struct LevelInitialize {}

impl LevelInitialize {
    pub fn encode(&self) -> (r: Vec<u8>)
        ensures
            r@ == Seq::<u8>::empty(),
    {
        let out: Vec<u8> = Vec::new();
        assert(out@ =~= Seq::<u8>::empty());
        out
    }

    pub fn decode(b: &Vec<u8>) -> (r: Result<Self, Error>)
        ensures
            match r {
                Ok(p) => b@.len() == 0,
                Err(e) => e == Error::WrongPacket && b@.len() != 0,
            },
    {
        if b.len() != 0 {
            return Err(Error::WrongPacket);
        }
        Ok(LevelInitialize {})
    }
}

/// One 1024-byte slice of the gzip-compressed level.
#[derive(Clone, Debug)]
pub struct LevelDataChunk {
    pub chunk_length: i16,
    pub chunk_data: Vec<u8>,
    pub percent_complete: u8,
}

/// The streamer always hands the codec exactly 1024 payload bytes.
pub open spec fn wf_level_data_chunk(p: LevelDataChunk) -> bool {
    p.chunk_data@.len() == 1024
}

pub open spec fn spec_enc_level_data_chunk(p: LevelDataChunk) -> Seq<u8> {
    be16(p.chunk_length) + crate::codec::zero_padded1024(p.chunk_data@) + seq![p.percent_complete]
}

impl LevelDataChunk {
    pub fn encode(&self) -> (r: Vec<u8>)
        ensures
            r@ == spec_enc_level_data_chunk(*self),
            r@.len() == 1027,
    {
        let mut out: Vec<u8> = Vec::new();
        enc_i16(&mut out, self.chunk_length);
        enc_padded(&mut out, &self.chunk_data, 1024, 0x00);
        enc_u8(&mut out, self.percent_complete);
        assert(out@ =~= spec_enc_level_data_chunk(*self));
        out
    }

    pub fn decode(b: &Vec<u8>) -> (r: Result<Self, Error>)
        ensures
            match r {
                Ok(p) => {
                    &&& b@.len() == 1027
                    &&& p.chunk_length == i16_from_be(b@[0], b@[1])
                    &&& p.chunk_data@ == b@.subrange(2, 1026)
                    &&& p.percent_complete == b@[1026]
                },
                Err(e) => e == Error::WrongPacket && b@.len() != 1027,
            },
    {
        if b.len() != 1027 {
            return Err(Error::WrongPacket);
        }
        Ok(LevelDataChunk {
            chunk_length: read_i16(b, 0),
            chunk_data: read_chunk(b, 2, 1024),
            percent_complete: read_u8(b, 1026),
        })
    }
}

/// Codec round trip: the encoding of a well-formed record decodes
/// successfully and yields the record back unchanged.
pub proof fn lemma_level_data_chunk_round_trip(p: LevelDataChunk)
    requires
        wf_level_data_chunk(p),
    ensures
        ({
            let b = spec_enc_level_data_chunk(p);
            &&& b.len() == 1027
            &&& i16_from_be(b[0], b[1]) == p.chunk_length
            &&& b.subrange(2, 1026) == p.chunk_data@
            &&& b[1026] == p.percent_complete
        }),
{
    let b = spec_enc_level_data_chunk(p);
    lemma_be16_round_trip(p.chunk_length);
    assert(b.subrange(2, 1026) =~= p.chunk_data@);
}

/// Ends the level transfer and announces the world's dimensions.
#[derive(Clone, Copy, Debug, PartialEq, Eq, Structural)]
pub struct LevelFinalize {
    pub x_size: i16,
    pub y_size: i16,
    pub z_size: i16,
}

pub open spec fn spec_enc_level_finalize(p: LevelFinalize) -> Seq<u8> {
    be16(p.x_size) + be16(p.y_size) + be16(p.z_size)
}

impl LevelFinalize {
    pub fn encode(&self) -> (r: Vec<u8>)
        ensures
            r@ == spec_enc_level_finalize(*self),
            r@.len() == 6,
    {
        let mut out: Vec<u8> = Vec::new();
        enc_i16(&mut out, self.x_size);
        enc_i16(&mut out, self.y_size);
        enc_i16(&mut out, self.z_size);
        assert(out@ =~= spec_enc_level_finalize(*self));
        out
    }

    pub fn decode(b: &Vec<u8>) -> (r: Result<Self, Error>)
        ensures
            match r {
                Ok(p) => {
                    &&& b@.len() == 6
                    &&& p.x_size == i16_from_be(b@[0], b@[1])
                    &&& p.y_size == i16_from_be(b@[2], b@[3])
                    &&& p.z_size == i16_from_be(b@[4], b@[5])
                },
                Err(e) => e == Error::WrongPacket && b@.len() != 6,
            },
    {
        if b.len() != 6 {
            return Err(Error::WrongPacket);
        }
        Ok(LevelFinalize {
            x_size: read_i16(b, 0),
            y_size: read_i16(b, 2),
            z_size: read_i16(b, 4),
        })
    }
}

/// Codec round trip: every record of this kind decodes from its own
/// encoding unchanged.
pub proof fn lemma_level_finalize_round_trip(p: LevelFinalize)
    ensures
        ({
            let b = spec_enc_level_finalize(p);
            &&& b.len() == 6
            &&& i16_from_be(b[0], b[1]) == p.x_size
            &&& i16_from_be(b[2], b[3]) == p.y_size
            &&& i16_from_be(b[4], b[5]) == p.z_size
        }),
{
    lemma_be16_round_trip(p.x_size);
    lemma_be16_round_trip(p.y_size);
    lemma_be16_round_trip(p.z_size);
}

/// The server announces a block change.
#[derive(Clone, Copy, Debug, PartialEq, Eq, Structural)]
pub struct SetBlock {
    pub x: i16,
    pub y: i16,
    pub z: i16,
    pub block_type: u8,
}

pub open spec fn spec_enc_set_block(p: SetBlock) -> Seq<u8> {
    be16(p.x) + be16(p.y) + be16(p.z) + seq![p.block_type]
}

impl SetBlock {
    pub fn encode(&self) -> (r: Vec<u8>)
        ensures
            r@ == spec_enc_set_block(*self),
            r@.len() == 7,
    {
        let mut out: Vec<u8> = Vec::new();
        enc_i16(&mut out, self.x);
        enc_i16(&mut out, self.y);
        enc_i16(&mut out, self.z);
        enc_u8(&mut out, self.block_type);
        assert(out@ =~= spec_enc_set_block(*self));
        out
    }

    pub fn decode(b: &Vec<u8>) -> (r: Result<Self, Error>)
        ensures
            match r {
                Ok(p) => {
                    &&& b@.len() == 7
                    &&& p.x == i16_from_be(b@[0], b@[1])
                    &&& p.y == i16_from_be(b@[2], b@[3])
                    &&& p.z == i16_from_be(b@[4], b@[5])
                    &&& p.block_type == b@[6]
                },
                Err(e) => e == Error::WrongPacket && b@.len() != 7,
            },
    {
        if b.len() != 7 {
            return Err(Error::WrongPacket);
        }
        Ok(SetBlock {
            x: read_i16(b, 0),
            y: read_i16(b, 2),
            z: read_i16(b, 4),
            block_type: read_u8(b, 6),
        })
    }
}

/// Codec round trip: every record of this kind decodes from its own
/// encoding unchanged.
pub proof fn lemma_set_block_round_trip(p: SetBlock)
    ensures
        ({
            let b = spec_enc_set_block(p);
            &&& b.len() == 7
            &&& i16_from_be(b[0], b[1]) == p.x
            &&& i16_from_be(b[2], b[3]) == p.y
            &&& i16_from_be(b[4], b[5]) == p.z
            &&& b[6] == p.block_type
        }),
{
    lemma_be16_round_trip(p.x);
    lemma_be16_round_trip(p.y);
    lemma_be16_round_trip(p.z);
}

/// A player appears in the world.
#[derive(Clone, Debug)]
pub struct SpawnPlayer {
    pub player_id: i8,
    pub player_name: Vec<u8>,
    pub x: i16,
    pub y: i16,
    pub z: i16,
    pub yaw: u8,
    pub pitch: u8,
}

pub open spec fn wf_spawn_player(p: SpawnPlayer) -> bool {
    &&& is_utf8(p.player_name@)
    &&& p.player_name@.len() <= 64
}

pub open spec fn spec_enc_spawn_player(p: SpawnPlayer) -> Seq<u8> {
    seq![p.player_id as u8] + space_padded64(p.player_name@) + be16(p.x) + be16(p.y) + be16(p.z)
        + seq![p.yaw] + seq![p.pitch]
}

pub open spec fn spec_dec_ok_spawn_player(b: Seq<u8>) -> bool {
    &&& b.len() == 73
    &&& is_utf8(b.subrange(1, 65))
}

impl SpawnPlayer {
    pub fn encode(&self) -> (r: Vec<u8>)
        ensures
            r@ == spec_enc_spawn_player(*self),
            r@.len() == 73,
    {
        let mut out: Vec<u8> = Vec::new();
        enc_i8(&mut out, self.player_id);
        enc_padded(&mut out, &self.player_name, 64, 0x20);
        enc_i16(&mut out, self.x);
        enc_i16(&mut out, self.y);
        enc_i16(&mut out, self.z);
        enc_u8(&mut out, self.yaw);
        enc_u8(&mut out, self.pitch);
        assert(out@ =~= spec_enc_spawn_player(*self));
        out
    }

    pub fn decode(b: &Vec<u8>) -> (r: Result<Self, Error>)
        ensures
            match r {
                Ok(p) => {
                    &&& spec_dec_ok_spawn_player(b@)
                    &&& p.player_id == b@[0] as i8
                    &&& p.player_name@ == b@.subrange(1, 65)
                    &&& p.x == i16_from_be(b@[65], b@[66])
                    &&& p.y == i16_from_be(b@[67], b@[68])
                    &&& p.z == i16_from_be(b@[69], b@[70])
                    &&& p.yaw == b@[71]
                    &&& p.pitch == b@[72]
                },
                Err(e) => e == Error::WrongPacket && !spec_dec_ok_spawn_player(b@),
            },
    {
        if b.len() != 73 {
            return Err(Error::WrongPacket);
        }
        let player_name = read_chunk(b, 1, 64);
        if !check_utf8(&player_name) {
            return Err(Error::WrongPacket);
        }
        Ok(SpawnPlayer {
            player_id: read_i8(b, 0),
            player_name,
            x: read_i16(b, 65),
            y: read_i16(b, 67),
            z: read_i16(b, 69),
            yaw: read_u8(b, 71),
            pitch: read_u8(b, 72),
        })
    }
}

/// Codec round trip: the encoding of a well-formed record is 73 bytes,
/// decodes successfully, and yields the record back with the name
/// space-padded.
pub proof fn lemma_spawn_player_round_trip(p: SpawnPlayer)
    requires
        wf_spawn_player(p),
    ensures
        ({
            let b = spec_enc_spawn_player(p);
            &&& b.len() == 73
            &&& spec_dec_ok_spawn_player(b)
            &&& b[0] as i8 == p.player_id
            &&& b.subrange(1, 65) == space_padded64(p.player_name@)
            &&& i16_from_be(b[65], b[66]) == p.x
            &&& i16_from_be(b[67], b[68]) == p.y
            &&& i16_from_be(b[69], b[70]) == p.z
            &&& b[71] == p.yaw
            &&& b[72] == p.pitch
        }),
{
    let b = spec_enc_spawn_player(p);
    assert(b.subrange(1, 65) =~= space_padded64(p.player_name@));
    lemma_space_padded_utf8(p.player_name@);
    lemma_i8_round_trip(p.player_id);
    lemma_be16_round_trip(p.x);
    lemma_be16_round_trip(p.y);
    lemma_be16_round_trip(p.z);
}

/// Moves a player, the self-teleport form.
#[derive(Clone, Copy, Debug, PartialEq, Eq, Structural)]
pub struct PositionOrientationTeleport {
    pub player_id: i8,
    pub x: i16,
    pub y: i16,
    pub z: i16,
    pub yaw: u8,
    pub pitch: u8,
}

pub open spec fn spec_enc_position_orientation_teleport(p: PositionOrientationTeleport) -> Seq<
    u8,
> {
    seq![p.player_id as u8] + be16(p.x) + be16(p.y) + be16(p.z) + seq![p.yaw] + seq![p.pitch]
}

impl PositionOrientationTeleport {
    pub fn encode(&self) -> (r: Vec<u8>)
        ensures
            r@ == spec_enc_position_orientation_teleport(*self),
            r@.len() == 9,
    {
        let mut out: Vec<u8> = Vec::new();
        enc_i8(&mut out, self.player_id);
        enc_i16(&mut out, self.x);
        enc_i16(&mut out, self.y);
        enc_i16(&mut out, self.z);
        enc_u8(&mut out, self.yaw);
        enc_u8(&mut out, self.pitch);
        assert(out@ =~= spec_enc_position_orientation_teleport(*self));
        out
    }

    pub fn decode(b: &Vec<u8>) -> (r: Result<Self, Error>)
        ensures
            match r {
                Ok(p) => {
                    &&& b@.len() == 9
                    &&& p.player_id == b@[0] as i8
                    &&& p.x == i16_from_be(b@[1], b@[2])
                    &&& p.y == i16_from_be(b@[3], b@[4])
                    &&& p.z == i16_from_be(b@[5], b@[6])
                    &&& p.yaw == b@[7]
                    &&& p.pitch == b@[8]
                },
                Err(e) => e == Error::WrongPacket && b@.len() != 9,
            },
    {
        if b.len() != 9 {
            return Err(Error::WrongPacket);
        }
        Ok(PositionOrientationTeleport {
            player_id: read_i8(b, 0),
            x: read_i16(b, 1),
            y: read_i16(b, 3),
            z: read_i16(b, 5),
            yaw: read_u8(b, 7),
            pitch: read_u8(b, 8),
        })
    }
}

/// Codec round trip: every record of this kind decodes from its own
/// encoding unchanged.
pub proof fn lemma_position_orientation_teleport_round_trip(p: PositionOrientationTeleport)
    ensures
        ({
            let b = spec_enc_position_orientation_teleport(p);
            &&& b.len() == 9
            &&& b[0] as i8 == p.player_id
            &&& i16_from_be(b[1], b[2]) == p.x
            &&& i16_from_be(b[3], b[4]) == p.y
            &&& i16_from_be(b[5], b[6]) == p.z
            &&& b[7] == p.yaw
            &&& b[8] == p.pitch
        }),
{
    lemma_i8_round_trip(p.player_id);
    lemma_be16_round_trip(p.x);
    lemma_be16_round_trip(p.y);
    lemma_be16_round_trip(p.z);
}

/// Moves a player, the absolute-update form.
#[derive(Clone, Copy, Debug, PartialEq, Eq, Structural)]
pub struct PositionOrientationUpdate {
    pub player_id: i8,
    pub x: i16,
    pub y: i16,
    pub z: i16,
    pub yaw: u8,
    pub pitch: u8,
}

pub open spec fn spec_enc_position_orientation_update(p: PositionOrientationUpdate) -> Seq<u8> {
    seq![p.player_id as u8] + be16(p.x) + be16(p.y) + be16(p.z) + seq![p.yaw] + seq![p.pitch]
}

impl PositionOrientationUpdate {
    pub fn encode(&self) -> (r: Vec<u8>)
        ensures
            r@ == spec_enc_position_orientation_update(*self),
            r@.len() == 9,
    {
        let mut out: Vec<u8> = Vec::new();
        enc_i8(&mut out, self.player_id);
        enc_i16(&mut out, self.x);
        enc_i16(&mut out, self.y);
        enc_i16(&mut out, self.z);
        enc_u8(&mut out, self.yaw);
        enc_u8(&mut out, self.pitch);
        assert(out@ =~= spec_enc_position_orientation_update(*self));
        out
    }

    pub fn decode(b: &Vec<u8>) -> (r: Result<Self, Error>)
        ensures
            match r {
                Ok(p) => {
                    &&& b@.len() == 9
                    &&& p.player_id == b@[0] as i8
                    &&& p.x == i16_from_be(b@[1], b@[2])
                    &&& p.y == i16_from_be(b@[3], b@[4])
                    &&& p.z == i16_from_be(b@[5], b@[6])
                    &&& p.yaw == b@[7]
                    &&& p.pitch == b@[8]
                },
                Err(e) => e == Error::WrongPacket && b@.len() != 9,
            },
    {
        if b.len() != 9 {
            return Err(Error::WrongPacket);
        }
        Ok(PositionOrientationUpdate {
            player_id: read_i8(b, 0),
            x: read_i16(b, 1),
            y: read_i16(b, 3),
            z: read_i16(b, 5),
            yaw: read_u8(b, 7),
            pitch: read_u8(b, 8),
        })
    }
}

/// Codec round trip: every record of this kind decodes from its own
/// encoding unchanged.
pub proof fn lemma_position_orientation_update_round_trip(p: PositionOrientationUpdate)
    ensures
        ({
            let b = spec_enc_position_orientation_update(p);
            &&& b.len() == 9
            &&& b[0] as i8 == p.player_id
            &&& i16_from_be(b[1], b[2]) == p.x
            &&& i16_from_be(b[3], b[4]) == p.y
            &&& i16_from_be(b[5], b[6]) == p.z
            &&& b[7] == p.yaw
            &&& b[8] == p.pitch
        }),
{
    lemma_i8_round_trip(p.player_id);
    lemma_be16_round_trip(p.x);
    lemma_be16_round_trip(p.y);
    lemma_be16_round_trip(p.z);
}

/// A relative position change.
#[derive(Clone, Copy, Debug, PartialEq, Eq, Structural)]
pub struct PositionUpdate {
    pub player_id: i8,
    pub change_x: i16,
    pub change_y: i16,
    pub change_z: i16,
}

pub open spec fn spec_enc_position_update(p: PositionUpdate) -> Seq<u8> {
    seq![p.player_id as u8] + be16(p.change_x) + be16(p.change_y) + be16(p.change_z)
}

impl PositionUpdate {
    pub fn encode(&self) -> (r: Vec<u8>)
        ensures
            r@ == spec_enc_position_update(*self),
            r@.len() == 7,
    {
        let mut out: Vec<u8> = Vec::new();
        enc_i8(&mut out, self.player_id);
        enc_i16(&mut out, self.change_x);
        enc_i16(&mut out, self.change_y);
        enc_i16(&mut out, self.change_z);
        assert(out@ =~= spec_enc_position_update(*self));
        out
    }

    pub fn decode(b: &Vec<u8>) -> (r: Result<Self, Error>)
        ensures
            match r {
                Ok(p) => {
                    &&& b@.len() == 7
                    &&& p.player_id == b@[0] as i8
                    &&& p.change_x == i16_from_be(b@[1], b@[2])
                    &&& p.change_y == i16_from_be(b@[3], b@[4])
                    &&& p.change_z == i16_from_be(b@[5], b@[6])
                },
                Err(e) => e == Error::WrongPacket && b@.len() != 7,
            },
    {
        if b.len() != 7 {
            return Err(Error::WrongPacket);
        }
        Ok(PositionUpdate {
            player_id: read_i8(b, 0),
            change_x: read_i16(b, 1),
            change_y: read_i16(b, 3),
            change_z: read_i16(b, 5),
        })
    }
}

/// Codec round trip: every record of this kind decodes from its own
/// encoding unchanged.
pub proof fn lemma_position_update_round_trip(p: PositionUpdate)
    ensures
        ({
            let b = spec_enc_position_update(p);
            &&& b.len() == 7
            &&& b[0] as i8 == p.player_id
            &&& i16_from_be(b[1], b[2]) == p.change_x
            &&& i16_from_be(b[3], b[4]) == p.change_y
            &&& i16_from_be(b[5], b[6]) == p.change_z
        }),
{
    lemma_i8_round_trip(p.player_id);
    lemma_be16_round_trip(p.change_x);
    lemma_be16_round_trip(p.change_y);
    lemma_be16_round_trip(p.change_z);
}

/// An orientation-only change.
#[derive(Clone, Copy, Debug, PartialEq, Eq, Structural)]
pub struct OrientationUpdate {
    pub player_id: i8,
    pub yaw: u8,
    pub pitch: u8,
}

pub open spec fn spec_enc_orientation_update(p: OrientationUpdate) -> Seq<u8> {
    seq![p.player_id as u8, p.yaw, p.pitch]
}

impl OrientationUpdate {
    pub fn encode(&self) -> (r: Vec<u8>)
        ensures
            r@ == spec_enc_orientation_update(*self),
            r@.len() == 3,
    {
        let mut out: Vec<u8> = Vec::new();
        enc_i8(&mut out, self.player_id);
        enc_u8(&mut out, self.yaw);
        enc_u8(&mut out, self.pitch);
        assert(out@ =~= spec_enc_orientation_update(*self));
        out
    }

    pub fn decode(b: &Vec<u8>) -> (r: Result<Self, Error>)
        ensures
            match r {
                Ok(p) => {
                    &&& b@.len() == 3
                    &&& p.player_id == b@[0] as i8
                    &&& p.yaw == b@[1]
                    &&& p.pitch == b@[2]
                },
                Err(e) => e == Error::WrongPacket && b@.len() != 3,
            },
    {
        if b.len() != 3 {
            return Err(Error::WrongPacket);
        }
        Ok(OrientationUpdate { player_id: read_i8(b, 0), yaw: read_u8(b, 1), pitch: read_u8(b, 2) })
    }
}

/// Codec round trip: every record of this kind decodes from its own
/// encoding unchanged.
pub proof fn lemma_orientation_update_round_trip(p: OrientationUpdate)
    ensures
        ({
            let b = spec_enc_orientation_update(p);
            &&& b.len() == 3
            &&& b[0] as i8 == p.player_id
            &&& b[1] == p.yaw
            &&& b[2] == p.pitch
        }),
{
    lemma_i8_round_trip(p.player_id);
}

/// A player leaves the world.
#[derive(Clone, Copy, Debug, PartialEq, Eq, Structural)]
pub struct DespawnPlayer {
    pub player_id: i8,
}

pub open spec fn spec_enc_despawn_player(p: DespawnPlayer) -> Seq<u8> {
    seq![p.player_id as u8]
}

impl DespawnPlayer {
    pub fn encode(&self) -> (r: Vec<u8>)
        ensures
            r@ == spec_enc_despawn_player(*self),
            r@.len() == 1,
    {
        let mut out: Vec<u8> = Vec::new();
        enc_i8(&mut out, self.player_id);
        assert(out@ =~= spec_enc_despawn_player(*self));
        out
    }

    pub fn decode(b: &Vec<u8>) -> (r: Result<Self, Error>)
        ensures
            match r {
                Ok(p) => b@.len() == 1 && p.player_id == b@[0] as i8,
                Err(e) => e == Error::WrongPacket && b@.len() != 1,
            },
    {
        if b.len() != 1 {
            return Err(Error::WrongPacket);
        }
        Ok(DespawnPlayer { player_id: read_i8(b, 0) })
    }
}

/// Codec round trip: every record of this kind decodes from its own
/// encoding unchanged.
pub proof fn lemma_despawn_player_round_trip(p: DespawnPlayer)
    ensures
        ({
            let b = spec_enc_despawn_player(p);
            b.len() == 1 && b[0] as i8 == p.player_id
        }),
{
    lemma_i8_round_trip(p.player_id);
}

/// A chat line relayed to a client.
#[derive(Clone, Debug)]
pub struct Message {
    pub player_id: i8,
    pub message: Vec<u8>,
}

pub open spec fn wf_message(p: Message) -> bool {
    &&& is_utf8(p.message@)
    &&& p.message@.len() <= 64
}

pub open spec fn spec_enc_message(p: Message) -> Seq<u8> {
    seq![p.player_id as u8] + space_padded64(p.message@)
}

pub open spec fn spec_dec_ok_message(b: Seq<u8>) -> bool {
    &&& b.len() == 65
    &&& is_utf8(b.subrange(1, 65))
}

impl Message {
    pub fn encode(&self) -> (r: Vec<u8>)
        ensures
            r@ == spec_enc_message(*self),
            r@.len() == 65,
    {
        let mut out: Vec<u8> = Vec::new();
        enc_i8(&mut out, self.player_id);
        enc_padded(&mut out, &self.message, 64, 0x20);
        assert(out@ =~= spec_enc_message(*self));
        out
    }

    pub fn decode(b: &Vec<u8>) -> (r: Result<Self, Error>)
        ensures
            match r {
                Ok(p) => {
                    &&& spec_dec_ok_message(b@)
                    &&& p.player_id == b@[0] as i8
                    &&& p.message@ == b@.subrange(1, 65)
                },
                Err(e) => e == Error::WrongPacket && !spec_dec_ok_message(b@),
            },
    {
        if b.len() != 65 {
            return Err(Error::WrongPacket);
        }
        let message = read_chunk(b, 1, 64);
        if !check_utf8(&message) {
            return Err(Error::WrongPacket);
        }
        Ok(Message { player_id: read_i8(b, 0), message })
    }
}

/// Codec round trip: the encoding of a well-formed record decodes
/// successfully and yields the record back with the text space-padded.
pub proof fn lemma_server_message_round_trip(p: Message)
    requires
        wf_message(p),
    ensures
        ({
            let b = spec_enc_message(p);
            &&& b.len() == 65
            &&& spec_dec_ok_message(b)
            &&& b[0] as i8 == p.player_id
            &&& b.subrange(1, 65) == space_padded64(p.message@)
        }),
{
    let b = spec_enc_message(p);
    assert(b.subrange(1, 65) =~= space_padded64(p.message@));
    lemma_space_padded_utf8(p.message@);
    lemma_i8_round_trip(p.player_id);
}

/// The server closes a connection with a reason line.
#[derive(Clone, Debug)]
pub struct DisconnectPlayer {
    pub disconnect_reason: Vec<u8>,
}

pub open spec fn wf_disconnect_player(p: DisconnectPlayer) -> bool {
    &&& is_utf8(p.disconnect_reason@)
    &&& p.disconnect_reason@.len() <= 64
}

pub open spec fn spec_enc_disconnect_player(p: DisconnectPlayer) -> Seq<u8> {
    space_padded64(p.disconnect_reason@)
}

pub open spec fn spec_dec_ok_disconnect_player(b: Seq<u8>) -> bool {
    &&& b.len() == 64
    &&& is_utf8(b)
}

impl DisconnectPlayer {
    pub fn encode(&self) -> (r: Vec<u8>)
        ensures
            r@ == spec_enc_disconnect_player(*self),
            r@.len() == 64,
    {
        let mut out: Vec<u8> = Vec::new();
        enc_padded(&mut out, &self.disconnect_reason, 64, 0x20);
        assert(out@ =~= spec_enc_disconnect_player(*self));
        out
    }

    pub fn decode(b: &Vec<u8>) -> (r: Result<Self, Error>)
        ensures
            match r {
                Ok(p) => {
                    &&& spec_dec_ok_disconnect_player(b@)
                    &&& p.disconnect_reason@ == b@
                },
                Err(e) => e == Error::WrongPacket && !spec_dec_ok_disconnect_player(b@),
            },
    {
        if b.len() != 64 {
            return Err(Error::WrongPacket);
        }
        let disconnect_reason = read_chunk(b, 0, 64);
        assert(disconnect_reason@ =~= b@);
        if !check_utf8(&disconnect_reason) {
            return Err(Error::WrongPacket);
        }
        Ok(DisconnectPlayer { disconnect_reason })
    }
}

/// Codec round trip: the encoding of a well-formed record decodes
/// successfully and yields the reason back space-padded.
pub proof fn lemma_disconnect_player_round_trip(p: DisconnectPlayer)
    requires
        wf_disconnect_player(p),
    ensures
        ({
            let b = spec_enc_disconnect_player(p);
            &&& b.len() == 64
            &&& spec_dec_ok_disconnect_player(b)
            &&& b == space_padded64(p.disconnect_reason@)
        }),
{
    lemma_space_padded_utf8(p.disconnect_reason@);
}

/// Changes a client's user type.
#[derive(Clone, Copy, Debug, PartialEq, Eq, Structural)]
pub struct UpdateUserType {
    pub user_type: u8,
}

pub open spec fn spec_enc_update_user_type(p: UpdateUserType) -> Seq<u8> {
    seq![p.user_type]
}

impl UpdateUserType {
    pub fn encode(&self) -> (r: Vec<u8>)
        ensures
            r@ == spec_enc_update_user_type(*self),
            r@.len() == 1,
    {
        let mut out: Vec<u8> = Vec::new();
        enc_u8(&mut out, self.user_type);
        assert(out@ =~= spec_enc_update_user_type(*self));
        out
    }

    pub fn decode(b: &Vec<u8>) -> (r: Result<Self, Error>)
        ensures
            match r {
                Ok(p) => b@.len() == 1 && p.user_type == b@[0],
                Err(e) => e == Error::WrongPacket && b@.len() != 1,
            },
    {
        if b.len() != 1 {
            return Err(Error::WrongPacket);
        }
        Ok(UpdateUserType { user_type: read_u8(b, 0) })
    }
}

/// Codec round trip: every record of this kind decodes from its own
/// encoding unchanged.
pub proof fn lemma_update_user_type_round_trip(p: UpdateUserType)
    ensures
        ({
            let b = spec_enc_update_user_type(p);
            b.len() == 1 && b[0] == p.user_type
        }),
{
}

} // verus!
