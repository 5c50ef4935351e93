//! Client-to-server packets: fixed-size records with their exact byte
//! layout, an encoder and a decoder for each, and round-trip proofs.
//!
//! String fields hold raw wire bytes; on the wire they occupy 64 bytes,
//! space-padded. Decoded records therefore carry the padding; consumers
//! trim.

use vstd::prelude::*;

use crate::codec::{
    be16, enc_i16, enc_padded, enc_u8, i16_from_be, is_utf8, lemma_be16_round_trip,
    lemma_space_padded_utf8, read_chunk, read_i16, read_u8, space_padded64, check_utf8, Error,
};

verus! {

/// The first packet a client sends: credentials and protocol version.
#[derive(Clone, Debug)]
pub struct PlayerIdentification {
    pub protocol_version: u8,
    pub username: Vec<u8>,
    pub verification_key: Vec<u8>,
    pub unused: u8,
}

/// Field ranges under which the codec round-trips: string fields are
/// well-formed UTF-8 of at most 64 bytes.
pub open spec fn wf_player_identification(p: PlayerIdentification) -> bool {
    &&& is_utf8(p.username@)
    &&& p.username@.len() <= 64
    &&& is_utf8(p.verification_key@)
    &&& p.verification_key@.len() <= 64
}

pub open spec fn spec_enc_player_identification(p: PlayerIdentification) -> Seq<u8> {
    seq![p.protocol_version] + space_padded64(p.username@) + space_padded64(p.verification_key@)
        + seq![p.unused]
}

/// Decoding succeeds exactly on 130-byte bodies whose string fields are
/// well-formed UTF-8.
pub open spec fn spec_dec_ok_player_identification(b: Seq<u8>) -> bool {
    &&& b.len() == 130
    &&& is_utf8(b.subrange(1, 65))
    &&& is_utf8(b.subrange(65, 129))
}

/// `p` is the decoding of body `b`.
pub open spec fn spec_dec_rel_player_identification(b: Seq<u8>, p: PlayerIdentification) -> bool {
    &&& spec_dec_ok_player_identification(b)
    &&& p.protocol_version == b[0]
    &&& p.username@ == b.subrange(1, 65)
    &&& p.verification_key@ == b.subrange(65, 129)
    &&& p.unused == b[129]
}

impl PlayerIdentification {
    pub fn encode(&self) -> (r: Vec<u8>)
        ensures
            r@ == spec_enc_player_identification(*self),
            r@.len() == 130,
    {
        let mut out: Vec<u8> = Vec::new();
        enc_u8(&mut out, self.protocol_version);
        enc_padded(&mut out, &self.username, 64, 0x20);
        enc_padded(&mut out, &self.verification_key, 64, 0x20);
        enc_u8(&mut out, self.unused);
        assert(out@ =~= spec_enc_player_identification(*self));
        out
    }

    pub fn decode(b: &Vec<u8>) -> (r: Result<Self, Error>)
        ensures
            match r {
                Ok(p) => spec_dec_rel_player_identification(b@, p),
                Err(e) => e == Error::WrongPacket && !spec_dec_ok_player_identification(b@),
            },
    {
        if b.len() != 130 {
            return Err(Error::WrongPacket);
        }
        let username = read_chunk(b, 1, 64);
        if !check_utf8(&username) {
            return Err(Error::WrongPacket);
        }
        let verification_key = read_chunk(b, 65, 64);
        if !check_utf8(&verification_key) {
            return Err(Error::WrongPacket);
        }
        Ok(PlayerIdentification {
            protocol_version: read_u8(b, 0),
            username,
            verification_key,
            unused: read_u8(b, 129),
        })
    }
}

/// Codec round trip: the encoding of a well-formed record is 130 bytes,
/// decodes successfully, and yields the record back with its string fields
/// space-padded to 64 bytes.
pub proof fn lemma_player_identification_round_trip(p: PlayerIdentification)
    requires
        wf_player_identification(p),
    ensures
        ({
            let b = spec_enc_player_identification(p);
            &&& b.len() == 130
            &&& spec_dec_ok_player_identification(b)
            &&& b[0] == p.protocol_version
            &&& b.subrange(1, 65) == space_padded64(p.username@)
            &&& b.subrange(65, 129) == space_padded64(p.verification_key@)
            &&& b[129] == p.unused
        }),
{
    let b = spec_enc_player_identification(p);
    assert(b.subrange(1, 65) =~= space_padded64(p.username@));
    assert(b.subrange(65, 129) =~= space_padded64(p.verification_key@));
    lemma_space_padded_utf8(p.username@);
    lemma_space_padded_utf8(p.verification_key@);
}

/// A client places or removes a block.
#[derive(Clone, Copy, Debug, PartialEq, Eq, Structural)]
pub struct SetBlock {
    pub x: i16,
    pub y: i16,
    pub z: i16,
    pub mode: u8,
    pub block_type: u8,
}

pub open spec fn spec_enc_set_block(p: SetBlock) -> Seq<u8> {
    be16(p.x) + be16(p.y) + be16(p.z) + seq![p.mode] + seq![p.block_type]
}

/// `p` is the decoding of body `b`.
pub open spec fn spec_dec_rel_set_block(b: Seq<u8>, p: SetBlock) -> bool {
    &&& b.len() == 8
    &&& p.x == i16_from_be(b[0], b[1])
    &&& p.y == i16_from_be(b[2], b[3])
    &&& p.z == i16_from_be(b[4], b[5])
    &&& p.mode == b[6]
    &&& p.block_type == b[7]
}

impl SetBlock {
    pub fn encode(&self) -> (r: Vec<u8>)
        ensures
            r@ == spec_enc_set_block(*self),
            r@.len() == 8,
    {
        let mut out: Vec<u8> = Vec::new();
        enc_i16(&mut out, self.x);
        enc_i16(&mut out, self.y);
        enc_i16(&mut out, self.z);
        enc_u8(&mut out, self.mode);
        enc_u8(&mut out, self.block_type);
        assert(out@ =~= spec_enc_set_block(*self));
        out
    }

    pub fn decode(b: &Vec<u8>) -> (r: Result<Self, Error>)
        ensures
            match r {
                Ok(p) => spec_dec_rel_set_block(b@, p),
                Err(e) => e == Error::WrongPacket && b@.len() != 8,
            },
    {
        if b.len() != 8 {
            return Err(Error::WrongPacket);
        }
        Ok(SetBlock {
            x: read_i16(b, 0),
            y: read_i16(b, 2),
            z: read_i16(b, 4),
            mode: read_u8(b, 6),
            block_type: read_u8(b, 7),
        })
    }
}

/// Codec round trip: every record of this kind decodes from its own
/// encoding unchanged.
pub proof fn lemma_set_block_round_trip(p: SetBlock)
    ensures
        ({
            let b = spec_enc_set_block(p);
            &&& b.len() == 8
            &&& i16_from_be(b[0], b[1]) == p.x
            &&& i16_from_be(b[2], b[3]) == p.y
            &&& i16_from_be(b[4], b[5]) == p.z
            &&& b[6] == p.mode
            &&& b[7] == p.block_type
        }),
{
    lemma_be16_round_trip(p.x);
    lemma_be16_round_trip(p.y);
    lemma_be16_round_trip(p.z);
}

/// A client reports its own position and orientation.
#[derive(Clone, Copy, Debug, PartialEq, Eq, Structural)]
pub struct PositionOrientation {
    pub player_id: u8,
    pub x: i16,
    pub y: i16,
    pub z: i16,
    pub yaw: u8,
    pub pitch: u8,
}

pub open spec fn spec_enc_position_orientation(p: PositionOrientation) -> Seq<u8> {
    seq![p.player_id] + be16(p.x) + be16(p.y) + be16(p.z) + seq![p.yaw] + seq![p.pitch]
}

/// `p` is the decoding of body `b`.
pub open spec fn spec_dec_rel_position_orientation(b: Seq<u8>, p: PositionOrientation) -> bool {
    &&& b.len() == 9
    &&& p.player_id == b[0]
    &&& p.x == i16_from_be(b[1], b[2])
    &&& p.y == i16_from_be(b[3], b[4])
    &&& p.z == i16_from_be(b[5], b[6])
    &&& p.yaw == b[7]
    &&& p.pitch == b[8]
}

impl PositionOrientation {
    pub fn encode(&self) -> (r: Vec<u8>)
        ensures
            r@ == spec_enc_position_orientation(*self),
            r@.len() == 9,
    {
        let mut out: Vec<u8> = Vec::new();
        enc_u8(&mut out, self.player_id);
        enc_i16(&mut out, self.x);
        enc_i16(&mut out, self.y);
        enc_i16(&mut out, self.z);
        enc_u8(&mut out, self.yaw);
        enc_u8(&mut out, self.pitch);
        assert(out@ =~= spec_enc_position_orientation(*self));
        out
    }

    pub fn decode(b: &Vec<u8>) -> (r: Result<Self, Error>)
        ensures
            match r {
                Ok(p) => spec_dec_rel_position_orientation(b@, p),
                Err(e) => e == Error::WrongPacket && b@.len() != 9,
            },
    {
        if b.len() != 9 {
            return Err(Error::WrongPacket);
        }
        Ok(PositionOrientation {
            player_id: read_u8(b, 0),
            x: read_i16(b, 1),
            y: read_i16(b, 3),
            z: read_i16(b, 5),
            yaw: read_u8(b, 7),
            pitch: read_u8(b, 8),
        })
    }
}

/// Codec round trip: every record of this kind decodes from its own
/// encoding unchanged.
pub proof fn lemma_position_orientation_round_trip(p: PositionOrientation)
    ensures
        ({
            let b = spec_enc_position_orientation(p);
            &&& b.len() == 9
            &&& b[0] == p.player_id
            &&& i16_from_be(b[1], b[2]) == p.x
            &&& i16_from_be(b[3], b[4]) == p.y
            &&& i16_from_be(b[5], b[6]) == p.z
            &&& b[7] == p.yaw
            &&& b[8] == p.pitch
        }),
{
    lemma_be16_round_trip(p.x);
    lemma_be16_round_trip(p.y);
    lemma_be16_round_trip(p.z);
}

/// A chat line from a client.
#[derive(Clone, Debug)]
pub struct Message {
    pub unused: u8,
    pub message: Vec<u8>,
}

pub open spec fn wf_message(p: Message) -> bool {
    &&& is_utf8(p.message@)
    &&& p.message@.len() <= 64
}

pub open spec fn spec_enc_message(p: Message) -> Seq<u8> {
    seq![p.unused] + space_padded64(p.message@)
}

pub open spec fn spec_dec_ok_message(b: Seq<u8>) -> bool {
    &&& b.len() == 65
    &&& is_utf8(b.subrange(1, 65))
}

/// `p` is the decoding of body `b`.
pub open spec fn spec_dec_rel_message(b: Seq<u8>, p: Message) -> bool {
    &&& spec_dec_ok_message(b)
    &&& p.unused == b[0]
    &&& p.message@ == b.subrange(1, 65)
}

impl Message {
    pub fn encode(&self) -> (r: Vec<u8>)
        ensures
            r@ == spec_enc_message(*self),
            r@.len() == 65,
    {
        let mut out: Vec<u8> = Vec::new();
        enc_u8(&mut out, self.unused);
        enc_padded(&mut out, &self.message, 64, 0x20);
        assert(out@ =~= spec_enc_message(*self));
        out
    }

    pub fn decode(b: &Vec<u8>) -> (r: Result<Self, Error>)
        ensures
            match r {
                Ok(p) => spec_dec_rel_message(b@, p),
                Err(e) => e == Error::WrongPacket && !spec_dec_ok_message(b@),
            },
    {
        if b.len() != 65 {
            return Err(Error::WrongPacket);
        }
        let message = read_chunk(b, 1, 64);
        if !check_utf8(&message) {
            return Err(Error::WrongPacket);
        }
        Ok(Message { unused: read_u8(b, 0), message })
    }
}

/// Codec round trip: the encoding of a well-formed record decodes
/// successfully and yields the record back with the text space-padded.
pub proof fn lemma_message_round_trip(p: Message)
    requires
        wf_message(p),
    ensures
        ({
            let b = spec_enc_message(p);
            &&& b.len() == 65
            &&& spec_dec_ok_message(b)
            &&& b[0] == p.unused
            &&& b.subrange(1, 65) == space_padded64(p.message@)
        }),
{
    let b = spec_enc_message(p);
    assert(b.subrange(1, 65) =~= space_padded64(p.message@));
    lemma_space_padded_utf8(p.message@);
}

} // verus!
