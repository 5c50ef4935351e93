//! The session orchestrator: the player table, the identification queue,
//! and the transition run for each client event. Every transition returns
//! the outbound packets it owes, as pairs of recipient id and framed
//! bytes; the driver performs the sends.

use vstd::prelude::*;

use crate::client;
use crate::codec::{be16, copy_bytes, space_padded64};
use crate::ids::{allocate_rel, lemma_allocate_live, lemma_recycle_live, IdAllocator};
use crate::server;

verus! {

/// A live, identified participant. The driver keeps the network handle;
/// the table row holds the protocol state.
pub struct Player {
    /// The username as identified, raw wire bytes (space-padded).
    pub player_name: Vec<u8>,
    /// Fixed-point coordinates, 1/32-block units.
    pub x: i16,
    pub y: i16,
    pub z: i16,
    pub yaw: u8,
    pub pitch: u8,
}

impl Player {
    /// The spawn packet announcing this player under the given id.
    pub fn to_spawn(&self, id: i8) -> (r: server::SpawnPlayer)
        ensures
            r.player_id == id,
            r.player_name@ == self.player_name@,
            r.x == self.x,
            r.y == self.y,
            r.z == self.z,
            r.yaw == self.yaw,
            r.pitch == self.pitch,
    {
        server::SpawnPlayer {
            player_id: id,
            player_name: copy_bytes(&self.player_name),
            x: self.x,
            y: self.y,
            z: self.z,
            yaw: self.yaw,
            pitch: self.pitch,
        }
    }

    /// The position broadcast for this player, in the client packet shape
    /// with the sender's id in the first byte: the target game client does
    /// not interpret the server-side update form.
    pub fn to_pos_ori_upd(&self, id: i8) -> (r: client::PositionOrientation)
        ensures
            r.player_id == id as u8,
            r.x == self.x,
            r.y == self.y,
            r.z == self.z,
            r.yaw == self.yaw,
            r.pitch == self.pitch,
    {
        client::PositionOrientation {
            player_id: id as u8,
            x: self.x,
            y: self.y,
            z: self.z,
            yaw: self.yaw,
            pitch: self.pitch,
        }
    }

    /// Takes the coordinates and orientation of a client report.
    pub fn set_pos_ori(&mut self, p: &client::PositionOrientation)
        ensures
            final(self).player_name == old(self).player_name,
            final(self).x == p.x,
            final(self).y == p.y,
            final(self).z == p.z,
            final(self).yaw == p.yaw,
            final(self).pitch == p.pitch,
    {
        self.x = p.x;
        self.y = p.y;
        self.z = p.z;
        self.yaw = p.yaw;
        self.pitch = p.pitch;
    }
}

/// One packet owed to one recipient: the session id and the framed bytes
/// (id byte followed by the body).
pub struct Outbound {
    pub to: i8,
    pub bytes: Vec<u8>,
}

impl View for Outbound {
    type V = (i8, Seq<u8>);

    open spec fn view(&self) -> (i8, Seq<u8>) {
        (self.to, self.bytes@)
    }
}

/// The action list `r` is exactly the expected recipient/bytes pairs.
pub open spec fn out_rel(r: Seq<Outbound>, expected: Seq<(i8, Seq<u8>)>) -> bool {
    &&& r.len() == expected.len()
    &&& forall|k: int| 0 <= k < r.len() ==> #[trigger] r[k]@ == expected[k]
}

/// Every player of the table gets the same bytes.
pub open spec fn broadcast_all(s: Seq<(i8, Player)>, bytes: Seq<u8>) -> Seq<(i8, Seq<u8>)> {
    s.map_values(|e: (i8, Player)| (e.0, bytes))
}

/// Every player but `id` gets the same bytes, in table order.
pub open spec fn broadcast_except(s: Seq<(i8, Player)>, id: i8, bytes: Seq<u8>) -> Seq<
    (i8, Seq<u8>),
>
    decreases s.len(),
{
    if s.len() == 0 {
        Seq::empty()
    } else {
        broadcast_except(s.drop_last(), id, bytes) + (if s.last().0 != id {
            seq![(s.last().0, bytes)]
        } else {
            Seq::empty()
        })
    }
}

/// The player table after `id` takes position `(x, y, z)` and orientation
/// `(yaw, pitch)`; rows of other ids are untouched.
pub open spec fn pos_updated(
    s: Seq<(i8, Player)>,
    id: i8,
    x: i16,
    y: i16,
    z: i16,
    yaw: u8,
    pitch: u8,
) -> Seq<(i8, Player)> {
    s.map_values(
        |e: (i8, Player)|
            if e.0 == id {
                (e.0, Player { player_name: e.1.player_name, x, y, z, yaw, pitch })
            } else {
                e
            },
    )
}

/// Broadcast idempotence on position: applying the same position report
/// twice in a row leaves the table exactly as the first application did.
pub proof fn lemma_position_idempotent(
    s: Seq<(i8, Player)>,
    id: i8,
    x: i16,
    y: i16,
    z: i16,
    yaw: u8,
    pitch: u8,
)
    ensures
        pos_updated(pos_updated(s, id, x, y, z, yaw, pitch), id, x, y, z, yaw, pitch)
            == pos_updated(s, id, x, y, z, yaw, pitch),
{
    let once = pos_updated(s, id, x, y, z, yaw, pitch);
    let twice = pos_updated(once, id, x, y, z, yaw, pitch);
    assert(twice =~= once);
}

/// The framed server `SetBlock` announcement.
pub open spec fn set_block_bytes(x: i16, y: i16, z: i16, t: u8) -> Seq<u8> {
    seq![0x06u8] + be16(x) + be16(y) + be16(z) + seq![t]
}

/// The framed client-shaped position broadcast carrying the sender's id.
pub open spec fn pos_ori_bytes(id: i8, x: i16, y: i16, z: i16, yaw: u8, pitch: u8) -> Seq<u8> {
    seq![0x08u8] + seq![id as u8] + be16(x) + be16(y) + be16(z) + seq![yaw, pitch]
}

/// The framed `DespawnPlayer` announcement.
pub open spec fn despawn_bytes(id: i8) -> Seq<u8> {
    seq![0x0cu8, id as u8]
}

/// The framed greeting the server sends on accept.
pub open spec fn greeting_bytes(name: Seq<u8>, motd: Seq<u8>) -> Seq<u8> {
    seq![0x00u8, 0x07u8] + space_padded64(name) + space_padded64(motd) + seq![0x00u8]
}

/// The reason line written to a connection refused for want of an id.
pub open spec fn full_reason(name: Seq<u8>) -> Seq<u8> {
    seq![0x26u8, 0x63, 0x53, 0x6f, 0x72, 0x72, 0x79, 0x2c, 0x20] + name + seq![
        0x20u8,
        0x26,
        0x63,
        0x69,
        0x73,
        0x20,
        0x66,
        0x75,
        0x6c,
        0x6c,
        0x20,
        0x72,
        0x69,
        0x67,
        0x68,
        0x74,
        0x20,
        0x6e,
        0x6f,
        0x77,
        0x2e,
    ]
}

/// The framed `DisconnectPlayer` written to a refused connection.
pub open spec fn server_full_bytes(name: Seq<u8>) -> Seq<u8> {
    seq![0x0eu8] + space_padded64(full_reason(name))
}

/// The framed `DisconnectPlayer` sent when identification times out.
pub open spec fn timeout_kick_bytes() -> Seq<u8> {
    seq![0x0eu8] + space_padded64(
        seq![
            0x49u8,
            0x64,
            0x65,
            0x6e,
            0x74,
            0x69,
            0x66,
            0x69,
            0x63,
            0x61,
            0x74,
            0x69,
            0x6f,
            0x6e,
            0x20,
            0x74,
            0x69,
            0x6d,
            0x65,
            0x6f,
            0x75,
            0x74,
        ],
    )
}

/// The outcome of admitting a fresh connection.
pub enum AdmitOutcome {
    /// An id was assigned; the greeting goes to the new session.
    Admitted(i8, Vec<u8>),
    /// No id was free; the refusal packet is written and the socket
    /// closed, with no session created.
    Full(Vec<u8>),
}

/// The orchestrator's shared state: configuration, the player table, the
/// identification queue, and the id allocator.
pub struct Core {
    pub server_name: Vec<u8>,
    pub server_motd: Vec<u8>,
    /// The player table: one row per identified session, keyed by id.
    pub players: Vec<(i8, Player)>,
    /// Ids admitted but not yet identified.
    pub pending: Vec<i8>,
    pub ids: IdAllocator,
}

impl Core {
    /// Id uniqueness, the structural invariant: table ids are pairwise
    /// distinct, queue ids are pairwise distinct, the two sets are
    /// disjoint, and every one of them is live in the allocator (hence in
    /// `[1, min(limit, 127)]`).
    pub open spec fn wf(self) -> bool {
        &&& self.ids.wf()
        &&& forall|i: int, j: int|
            0 <= i < j < self.players@.len() ==> (#[trigger] self.players@[i]).0 != (
            #[trigger] self.players@[j]).0
        &&& forall|i: int, j: int|
            0 <= i < j < self.pending@.len() ==> self.pending@[i] != self.pending@[j]
        &&& forall|i: int, j: int|
            0 <= i < self.players@.len() && 0 <= j < self.pending@.len() ==> (
            #[trigger] self.players@[i]).0 != #[trigger] self.pending@[j]
        &&& forall|i: int|
            0 <= i < self.players@.len() ==> self.ids.live((#[trigger] self.players@[i]).0)
        &&& forall|i: int| 0 <= i < self.pending@.len() ==> self.ids.live(#[trigger] self.pending@[i])
    }

    /// The table has a row for `id`.
    pub open spec fn has_player(self, id: i8) -> bool {
        exists|k: int| 0 <= k < self.players@.len() && (#[trigger] self.players@[k]).0 == id
    }

    pub fn new(server_name: Vec<u8>, server_motd: Vec<u8>, limit: Option<i8>) -> (r: Core)
        ensures
            r.wf(),
            r.server_name@ == server_name@,
            r.server_motd@ == server_motd@,
            r.players@.len() == 0,
            r.pending@.len() == 0,
            r.ids.current == 0,
            r.ids.free@.len() == 0,
            r.ids.cap as int == crate::ids::spec_cap(limit),
    {
        Core {
            server_name,
            server_motd,
            players: Vec::new(),
            pending: Vec::new(),
            ids: IdAllocator::new(limit),
        }
    }

    /// The row index of `id` in the player table.
    fn find_player(&self, id: i8) -> (r: Option<usize>)
        ensures
            match r {
                Some(k) => {
                    &&& k < self.players@.len()
                    &&& self.players@[k as int].0 == id
                    &&& forall|j: int| 0 <= j < k ==> (#[trigger] self.players@[j]).0 != id
                    &&& self.has_player(id)
                },
                None => !self.has_player(id),
            },
    {
        let n = self.players.len();
        let mut k: usize = 0;
        while k < n
            invariant
                k <= n,
                n == self.players@.len(),
                forall|j: int| 0 <= j < k ==> (#[trigger] self.players@[j]).0 != id,
            decreases n - k,
        {
            if self.players[k].0 == id {
                return Some(k);
            }
            k = k + 1;
        }
        None
    }

    /// The position of `id` in the identification queue.
    fn find_pending(&self, id: i8) -> (r: Option<usize>)
        ensures
            match r {
                Some(k) => k < self.pending@.len() && self.pending@[k as int] == id,
                None => !self.pending@.contains(id),
            },
    {
        let n = self.pending.len();
        let mut k: usize = 0;
        while k < n
            invariant
                k <= n,
                n == self.pending@.len(),
                forall|j: int| 0 <= j < k ==> self.pending@[j] != id,
            decreases n - k,
        {
            if self.pending[k] == id {
                return Some(k);
            }
            k = k + 1;
        }
        None
    }

    /// Handles a fresh connection: assigns an id and queues the session for
    /// identification, or refuses it with the server-full packet when the
    /// allocator is exhausted.
    pub fn on_client_connected(&mut self) -> (r: AdmitOutcome)
        requires
            old(self).wf(),
        ensures
            final(self).wf(),
            final(self).server_name@ == old(self).server_name@,
            final(self).server_motd@ == old(self).server_motd@,
            final(self).players@ == old(self).players@,
            final(self).ids.cap == old(self).ids.cap,
            match r {
                AdmitOutcome::Admitted(id, greeting) => {
                    &&& allocate_rel(old(self).ids, final(self).ids, Some(id))
                    &&& final(self).pending@ == old(self).pending@.push(id)
                    &&& greeting@ == greeting_bytes(
                        old(self).server_name@,
                        old(self).server_motd@,
                    )
                },
                AdmitOutcome::Full(bytes) => {
                    &&& old(self).ids.free@.len() == 0
                    &&& !(old(self).ids.current < old(self).ids.cap)
                    &&& final(self).pending@ == old(self).pending@
                    &&& final(self).ids.free@ == old(self).ids.free@
                    &&& final(self).ids.current == old(self).ids.current
                    &&& final(self).ids.cap == old(self).ids.cap
                    &&& bytes@ == server_full_bytes(old(self).server_name@)
                },
            },
    {
        let ghost pre = self.ids;
        let got = self.ids.allocate();
        proof {
            lemma_allocate_live(pre, self.ids, got);
        }
        match got {
            Some(id) => {
                let greeting_packet = server::ServerIdentification {
                    protocol_version: 0x07,
                    server_name: copy_bytes(&self.server_name),
                    server_motd: copy_bytes(&self.server_motd),
                    user_type: 0x00,
                };
                let body = greeting_packet.encode();
                let mut greeting: Vec<u8> = Vec::new();
                greeting.push(0x00);
                crate::codec::push_all(&mut greeting, &body);
                assert(greeting@ =~= greeting_bytes(self.server_name@, self.server_motd@));
                self.pending.push(id);
                AdmitOutcome::Admitted(id, greeting)
            },
            None => {
                let mut reason: Vec<u8> = Vec::new();
                let prefix: Vec<u8> = vec![0x26, 0x63, 0x53, 0x6f, 0x72, 0x72, 0x79, 0x2c, 0x20];
                let suffix: Vec<u8> = vec![
                    0x20, 0x26, 0x63, 0x69, 0x73, 0x20, 0x66, 0x75, 0x6c, 0x6c, 0x20, 0x72, 0x69,
                    0x67, 0x68, 0x74, 0x20, 0x6e, 0x6f, 0x77, 0x2e,
                ];
                crate::codec::push_all(&mut reason, &prefix);
                crate::codec::push_all(&mut reason, &self.server_name);
                crate::codec::push_all(&mut reason, &suffix);
                assert(reason@ =~= full_reason(self.server_name@));
                let packet = server::DisconnectPlayer { disconnect_reason: reason };
                let body = packet.encode();
                let mut bytes: Vec<u8> = Vec::new();
                bytes.push(0x0e);
                crate::codec::push_all(&mut bytes, &body);
                assert(bytes@ =~= server_full_bytes(self.server_name@));
                AdmitOutcome::Full(bytes)
            },
        }
    }

    /// A session closed: drop its table row and queue entry, recycle its
    /// id, and owe every remaining player a despawn announcement. A
    /// session id that is neither queued nor in the table changes nothing.
    pub fn on_client_disconnected(&mut self, id: i8) -> (r: Vec<Outbound>)
        requires
            old(self).wf(),
        ensures
            final(self).wf(),
            final(self).server_name@ == old(self).server_name@,
            final(self).server_motd@ == old(self).server_motd@,
            final(self).ids.cap == old(self).ids.cap,
            if old(self).has_player(id) || old(self).pending@.contains(id) {
                &&& (exists|k: int|
                    {
                        &&& 0 <= k < old(self).players@.len()
                        &&& (#[trigger] old(self).players@[k]).0 == id
                        &&& final(self).players@ == old(self).players@.remove(k)
                    }) || (final(self).players@ == old(self).players@ && !old(self).has_player(id))
                &&& (exists|k: int|
                    {
                        &&& 0 <= k < old(self).pending@.len()
                        &&& old(self).pending@[k] == id
                        &&& final(self).pending@ == old(self).pending@.remove(k)
                    }) || (final(self).pending@ == old(self).pending@ && !old(self).pending@.contains(id))
                &&& final(self).ids.current == old(self).ids.current
                &&& final(self).ids.free@ == old(self).ids.free@.push(id)
                &&& out_rel(r@, broadcast_all(final(self).players@, despawn_bytes(id)))
            } else {
                &&& final(self).players@ == old(self).players@
                &&& final(self).pending@ == old(self).pending@
                &&& final(self).ids == old(self).ids
                &&& r@.len() == 0
            },
    {
        let pk = self.find_player(id);
        let qk = self.find_pending(id);
        if pk.is_none() && qk.is_none() {
            return Vec::new();
        }
        match pk {
            Some(k) => {
                let _row = self.players.remove(k);
            },
            None => {},
        }
        match qk {
            Some(k) => {
                let _q = self.pending.remove(k);
            },
            None => {},
        }
        let ghost pre_ids = self.ids;
        self.ids.recycle(id);
        proof {
            lemma_recycle_live(pre_ids, self.ids, id);
        }
        let packet = server::DespawnPlayer { player_id: id };
        let body = packet.encode();
        let mut bytes: Vec<u8> = Vec::new();
        bytes.push(0x0c);
        crate::codec::push_all(&mut bytes, &body);
        assert(bytes@ =~= despawn_bytes(id));
        let mut r: Vec<Outbound> = Vec::new();
        let n = self.players.len();
        let mut k: usize = 0;
        while k < n
            invariant
                k <= n,
                n == self.players@.len(),
                bytes@ == despawn_bytes(id),
                r@.len() == k,
                forall|j: int|
                    0 <= j < k ==> #[trigger] r@[j]@ == (self.players@[j].0, despawn_bytes(id)),
            decreases n - k,
        {
            r.push(Outbound { to: self.players[k].0, bytes: copy_bytes(&bytes) });
            k = k + 1;
        }
        r
    }

    /// A position/orientation report: update the sender's row, then owe
    /// every other player the client-shaped broadcast that carries the
    /// sender's id. An unidentified sender changes nothing.
    pub fn on_position_orientation(&mut self, id: i8, p: client::PositionOrientation) -> (r: Vec<
        Outbound,
    >)
        requires
            old(self).wf(),
        ensures
            final(self).wf(),
            final(self).server_name@ == old(self).server_name@,
            final(self).server_motd@ == old(self).server_motd@,
            final(self).pending@ == old(self).pending@,
            final(self).ids == old(self).ids,
            final(self).players@ == if old(self).has_player(id) {
                pos_updated(old(self).players@, id, p.x, p.y, p.z, p.yaw, p.pitch)
            } else {
                old(self).players@
            },
            if old(self).has_player(id) {
                out_rel(
                    r@,
                    broadcast_except(
                        final(self).players@,
                        id,
                        pos_ori_bytes(id, p.x, p.y, p.z, p.yaw, p.pitch),
                    ),
                )
            } else {
                r@.len() == 0
            },
    {
        let k = match self.find_player(id) {
            Some(k) => k,
            None => {
                return Vec::new();
            },
        };
        let row = self.players.remove(k);
        let mut updated = row.1;
        updated.set_pos_ori(&p);
        self.players.insert(k, (row.0, updated));
        proof {
            let s0 = old(self).players@;
            assert forall|j: int| 0 <= j < s0.len() && j != k implies (#[trigger] s0[j]).0
                != id by {
                if j < k as int {
                    assert(s0[j].0 != s0[k as int].0);
                } else {
                    assert(s0[k as int].0 != s0[j].0);
                }
            }
            assert(self.players@ =~= pos_updated(
                old(self).players@,
                id,
                p.x,
                p.y,
                p.z,
                p.yaw,
                p.pitch,
            ));
        }
        let packet = client::PositionOrientation {
            player_id: id as u8,
            x: p.x,
            y: p.y,
            z: p.z,
            yaw: p.yaw,
            pitch: p.pitch,
        };
        let body = packet.encode();
        let mut bytes: Vec<u8> = Vec::new();
        bytes.push(0x08);
        crate::codec::push_all(&mut bytes, &body);
        assert(bytes@ =~= pos_ori_bytes(id, p.x, p.y, p.z, p.yaw, p.pitch));
        let mut r: Vec<Outbound> = Vec::new();
        let n = self.players.len();
        let mut j: usize = 0;
        while j < n
            invariant
                j <= n,
                n == self.players@.len(),
                bytes@ == pos_ori_bytes(id, p.x, p.y, p.z, p.yaw, p.pitch),
                out_rel(r@, broadcast_except(self.players@.take(j as int), id, bytes@)),
            decreases n - j,
        {
            let ghost prefix = self.players@.take(j as int);
            if self.players[j].0 != id {
                r.push(Outbound { to: self.players[j].0, bytes: copy_bytes(&bytes) });
            }
            proof {
                let next = self.players@.take(j + 1);
                assert(next.drop_last() =~= prefix);
                assert(next.last() == self.players@[j as int]);
            }
            j = j + 1;
        }
        proof {
            assert(self.players@.take(n as int) =~= self.players@);
        }
        r
    }

    /// A block change: ignore unknown senders; otherwise destroy
    /// (`mode == 0`) or place, update the world (out-of-grid coordinates
    /// are a no-op), and owe every player, the sender included, the server
    /// announcement.
    pub fn on_set_block(
        &self,
        world: &mut crate::terrain::Terrain,
        id: i8,
        p: client::SetBlock,
    ) -> (r: Vec<Outbound>)
        requires
            self.wf(),
            old(world).wf(),
        ensures
            final(world).wf(),
            final(world).size == old(world).size,
            final(world).spawn_point == old(world).spawn_point,
            ({
                let eff: u8 = if p.mode == 0 {
                    crate::blocks::AIR
                } else {
                    p.block_type
                };
                if self.has_player(id) {
                    &&& (old(world).in_bounds(p.x as int, p.y as int, p.z as int) ==> final(world).inner@ == old(world).inner@.update(
                        crate::terrain::spec_flat(
                            old(world).size.0 as int,
                            old(world).size.2 as int,
                            p.x as int,
                            p.y as int,
                            p.z as int,
                        ),
                        eff,
                    ))
                    &&& (!old(world).in_bounds(p.x as int, p.y as int, p.z as int) ==> final(world).inner@ == old(world).inner@)
                    &&& out_rel(
                        r@,
                        broadcast_all(self.players@, set_block_bytes(p.x, p.y, p.z, eff)),
                    )
                } else {
                    &&& final(world).inner@ == old(world).inner@
                    &&& r@.len() == 0
                }
            }),
    {
        if self.find_player(id).is_none() {
            return Vec::new();
        }
        let eff: u8 = if p.mode == 0 {
            crate::blocks::AIR
        } else {
            p.block_type
        };
        world.set_block(p.x, p.y, p.z, eff);
        let packet = server::SetBlock { x: p.x, y: p.y, z: p.z, block_type: eff };
        let body = packet.encode();
        let mut bytes: Vec<u8> = Vec::new();
        bytes.push(0x06);
        crate::codec::push_all(&mut bytes, &body);
        assert(bytes@ =~= set_block_bytes(p.x, p.y, p.z, eff));
        let mut r: Vec<Outbound> = Vec::new();
        let n = self.players.len();
        let mut k: usize = 0;
        while k < n
            invariant
                k <= n,
                n == self.players@.len(),
                bytes@ == set_block_bytes(p.x, p.y, p.z, eff),
                r@.len() == k,
                forall|j: int|
                    0 <= j < k ==> #[trigger] r@[j]@ == (self.players@[j].0, bytes@),
            decreases n - k,
        {
            r.push(Outbound { to: self.players[k].0, bytes: copy_bytes(&bytes) });
            k = k + 1;
        }
        r
    }

    /// A client identified: cancel the pending-queue entry, build the
    /// player at the world's spawn point, owe the newcomer the level run,
    /// exchange spawn announcements with every present player, close with
    /// the newcomer's self-spawn under id -1, and insert the row. An
    /// unqueued sender changes nothing.
    pub fn on_player_identification(
        &mut self,
        id: i8,
        p: client::PlayerIdentification,
        world: &crate::terrain::Terrain,
    ) -> (r: Vec<Outbound>)
        requires
            old(self).wf(),
            world.wf(),
        ensures
            final(self).wf(),
            final(self).server_name@ == old(self).server_name@,
            final(self).server_motd@ == old(self).server_motd@,
            final(self).ids == old(self).ids,
            if old(self).pending@.contains(id) {
                &&& exists|k: int|
                    {
                        &&& 0 <= k < old(self).pending@.len()
                        &&& old(self).pending@[k] == id
                        &&& final(self).pending@ == old(self).pending@.remove(k)
                    }
                &&& final(self).players@ == old(self).players@.push(
                    (
                        id,
                        Player {
                            player_name: p.username,
                            x: world.spawn_point.0,
                            y: world.spawn_point.1,
                            z: world.spawn_point.2,
                            yaw: 0,
                            pitch: 0,
                        },
                    ),
                )
                &&& out_rel(
                    r@,
                    seq![(id, crate::level::level_run_bytes(*world))] + spawn_exchange(
                        old(self).players@,
                        id,
                        p.username@,
                        world.spawn_point,
                    ) + seq![
                        (
                            id,
                            spawn_frame(
                                -1i8,
                                p.username@,
                                world.spawn_point.0,
                                world.spawn_point.1,
                                world.spawn_point.2,
                                0,
                                0,
                            ),
                        ),
                    ],
                )
            } else {
                &&& final(self).players@ == old(self).players@
                &&& final(self).pending@ == old(self).pending@
                &&& r@.len() == 0
            },
    {
        let qk = match self.find_pending(id) {
            Some(k) => k,
            None => {
                return Vec::new();
            },
        };
        let _q = self.pending.remove(qk);
        proof {
            let q0 = old(self).pending@;
            assert forall|j: int| 0 <= j < self.pending@.len() implies self.pending@[j] != id by {
                if j < qk as int {
                    assert(q0[j] != q0[qk as int]);
                } else {
                    assert(self.pending@[j] == q0[j + 1]);
                    assert(q0[qk as int] != q0[j + 1]);
                }
            }
        }
        let spawn = world.spawn_point;
        let newcomer = Player {
            player_name: p.username,
            x: spawn.0,
            y: spawn.1,
            z: spawn.2,
            yaw: 0,
            pitch: 0,
        };
        let mut r: Vec<Outbound> = Vec::new();
        r.push(Outbound { to: id, bytes: world.level_run() });
        let n = self.players.len();
        let mut k: usize = 0;
        while k < n
            invariant
                k <= n,
                n == self.players@.len(),
                newcomer.player_name@ == p.username@,
                newcomer.x == spawn.0 && newcomer.y == spawn.1 && newcomer.z == spawn.2,
                newcomer.yaw == 0 && newcomer.pitch == 0,
                spawn == world.spawn_point,
                world.wf(),
                r@.len() == 1 + 2 * k,
                r@[0]@ == (id, crate::level::level_run_bytes(*world)),
                out_rel(
                    r@.skip(1),
                    spawn_exchange(self.players@.take(k as int), id, p.username@, spawn),
                ),
            decreases n - k,
        {
            let ghost prefix = self.players@.take(k as int);
            let ghost r0 = r@;
            let to_existing = Outbound {
                to: self.players[k].0,
                bytes: spawn_frame_of(&newcomer, id),
            };
            r.push(to_existing);
            let to_newcomer = Outbound {
                to: id,
                bytes: spawn_frame_of(&self.players[k].1, self.players[k].0),
            };
            r.push(to_newcomer);
            proof {
                let next = self.players@.take(k + 1);
                assert(next.drop_last() =~= prefix);
                assert(next.last() == self.players@[k as int]);
                let exp_prev = spawn_exchange(prefix, id, p.username@, spawn);
                let exp = spawn_exchange(next, id, p.username@, spawn);
                assert forall|t: int| 0 <= t < exp.len() implies (#[trigger] r@.skip(1)[t])@
                    == exp[t] by {
                    if t < exp_prev.len() {
                        assert(r@.skip(1)[t] == r0.skip(1)[t]);
                    } else {
                        assert(r@.skip(1)[t] == r@[t + 1]);
                    }
                }
                assert(out_rel(r@.skip(1), exp));
            }
            k = k + 1;
        }
        proof {
            assert(self.players@.take(n as int) =~= self.players@);
        }
        let ghost r1 = r@;
        r.push(Outbound { to: id, bytes: spawn_frame_of(&newcomer, -1) });
        self.players.push((id, newcomer));
        proof {
            let exch = spawn_exchange(old(self).players@, id, p.username@, spawn);
            let exp = seq![(id, crate::level::level_run_bytes(*world))] + exch + seq![
                (
                    id,
                    spawn_frame(
                        -1i8,
                        p.username@,
                        world.spawn_point.0,
                        world.spawn_point.1,
                        world.spawn_point.2,
                        0,
                        0,
                    ),
                ),
            ];
            assert forall|t: int| 0 <= t < exp.len() implies (#[trigger] r@[t])@ == exp[t] by {
                if t == 0 {
                } else if t < exp.len() - 1 {
                    assert(r@[t] == r1[t]);
                    assert(r1.skip(1)[t - 1] == r1[t]);
                } else {
                    assert(r@[t] == r@[r@.len() - 1]);
                }
            }
            assert(out_rel(r@, exp));
        }
        r
    }

}

/// The framed chat `Message` relayed under a sender id.
pub open spec fn message_bytes(pid: i8, text: Seq<u8>) -> Seq<u8> {
    seq![0x0du8, pid as u8] + space_padded64(text)
}

/// The framed self-teleport (player id -1) to the given coordinates, with
/// pitch reset.
pub open spec fn teleport_bytes(x: i16, y: i16, z: i16, yaw: u8) -> Seq<u8> {
    seq![0x08u8, 0xffu8] + be16(x) + be16(y) + be16(z) + seq![yaw, 0u8]
}

/// The first table row whose space-trimmed name equals `name`.
pub open spec fn find_by_name(s: Seq<(i8, Player)>, name: Seq<u8>) -> Option<(i8, Player)>
    decreases s.len(),
{
    if s.len() == 0 {
        None
    } else if crate::chat::trimmed(s[0].1.player_name@) == name {
        Some(s[0])
    } else {
        find_by_name(s.skip(1), name)
    }
}

/// The stored name of the row keyed by `id` (empty if there is none).
pub open spec fn name_of(s: Seq<(i8, Player)>, id: i8) -> Seq<u8>
    decreases s.len(),
{
    if s.len() == 0 {
        Seq::empty()
    } else if s[0].0 == id {
        s[0].1.player_name@
    } else {
        name_of(s.skip(1), id)
    }
}

pub proof fn lemma_name_of_at(s: Seq<(i8, Player)>, id: i8, k: int)
    requires
        0 <= k < s.len(),
        forall|j: int| 0 <= j < k ==> (#[trigger] s[j]).0 != id,
        s[k].0 == id,
    ensures
        name_of(s, id) == s[k].1.player_name@,
    decreases s.len(),
{
    if k > 0 {
        let t = s.skip(1);
        assert forall|j: int| 0 <= j < k - 1 implies (#[trigger] t[j]).0 != id by {
            assert(t[j] == s[j + 1]);
        }
        assert(t[k - 1] == s[k]);
        lemma_name_of_at(t, id, k - 1);
    }
}

/// The framed chat message under a sender id.
fn message_frame(pid: i8, text: Vec<u8>) -> (r: Vec<u8>)
    ensures
        r@ == message_bytes(pid, text@),
{
    let packet = server::Message { player_id: pid, message: text };
    let body = packet.encode();
    let mut r: Vec<u8> = Vec::new();
    r.push(0x0d);
    crate::codec::push_all(&mut r, &body);
    assert(r@ =~= message_bytes(pid, packet.message@));
    r
}

impl Core {
    /// A chat line: a leading `/` goes to the command surface, whose
    /// replies go to the sender alone; anything else is formatted as
    /// `&7<name>:&f <text>` and broadcast to every player under the
    /// sender's id. An unidentified sender changes nothing.
    pub fn on_message(&self, id: i8, p: client::Message) -> (r: Vec<Outbound>)
        requires
            self.wf(),
        ensures
            ({
                let text = crate::chat::trimmed(p.message@);
                if !self.has_player(id) {
                    r@.len() == 0
                } else if text.len() > 0 && text[0] == 0x2f {
                    let cmd = text.skip(1);
                    if crate::commands::command_token(cmd) == crate::commands::tp_token()
                        && crate::commands::has_argument(cmd) && !crate::commands::has_extra_argument(
                        cmd,
                    ) {
                        match find_by_name(self.players@, crate::commands::argument_token(cmd)) {
                            Some(q) => out_rel(
                                r@,
                                seq![(id, teleport_bytes(q.1.x, q.1.y, q.1.z, q.1.yaw))],
                            ),
                            None => out_rel(
                                r@,
                                seq![
                                    (
                                        id,
                                        message_bytes(
                                            0i8,
                                            crate::chat::not_found_text(
                                                crate::commands::argument_token(cmd),
                                            ),
                                        ),
                                    ),
                                ],
                            ),
                        }
                    } else {
                        let suffix = if crate::commands::command_token(cmd).len() == 0 {
                            crate::chat::no_command_suffix()
                        } else if crate::commands::command_token(cmd)
                            != crate::commands::tp_token() {
                            crate::chat::not_known_suffix()
                        } else if !crate::commands::has_argument(cmd) {
                            crate::chat::not_enough_suffix()
                        } else {
                            crate::chat::too_many_suffix()
                        };
                        out_rel(
                            r@,
                            seq![
                                (
                                    id,
                                    message_bytes(
                                        0i8,
                                        crate::chat::command_error_text(text, suffix),
                                    ),
                                ),
                            ],
                        )
                    }
                } else {
                    out_rel(
                        r@,
                        broadcast_all(
                            self.players@,
                            message_bytes(
                                id,
                                crate::chat::chat_line(
                                    crate::chat::trimmed(name_of(self.players@, id)),
                                    text,
                                ),
                            ),
                        ),
                    )
                }
            }),
    {
        let k = match self.find_player(id) {
            Some(k) => k,
            None => {
                return Vec::new();
            },
        };
        let text = crate::chat::trim_spaces(&p.message);
        let tlen = text.len();
        if tlen > 0 && text[0] == 0x2f {
            let cmd = crate::codec::read_chunk(&text, 1, tlen - 1);
            proof {
                assert(cmd@ =~= text@.skip(1));
            }
            match crate::commands::Command::from_str(&cmd) {
                Ok(crate::commands::Command::Tp(name)) => {
                    let n = self.players.len();
                    let mut j: usize = 0;
                    proof {
                        assert(self.players@.skip(0) =~= self.players@);
                    }
                    while j < n
                        invariant
                            j <= n,
                            n == self.players@.len(),
                            self.wf(),
                            self.has_player(id),
                            text@ == crate::chat::trimmed(p.message@),
                            text@.len() > 0,
                            text@[0] == 0x2f,
                            crate::commands::command_token(text@.skip(1))
                                == crate::commands::tp_token(),
                            crate::commands::has_argument(text@.skip(1)),
                            !crate::commands::has_extra_argument(text@.skip(1)),
                            name@ == crate::commands::argument_token(text@.skip(1)),
                            find_by_name(self.players@, name@) == find_by_name(
                                self.players@.skip(j as int),
                                name@,
                            ),
                        decreases n - j,
                    {
                        let tn = crate::chat::trim_spaces(&self.players[j].1.player_name);
                        proof {
                            assert(self.players@.skip(j as int)[0] == self.players@[j as int]);
                        }
                        if crate::codec::bytes_eq(&tn, &name) {
                            proof {
                                let s = self.players@.skip(j as int);
                                assert(crate::chat::trimmed(s[0].1.player_name@) == name@);
                                assert(find_by_name(self.players@, name@) == Some(
                                    self.players@[j as int],
                                ));
                            }
                            let q = &self.players[j].1;
                            let packet = server::PositionOrientationTeleport {
                                player_id: -1,
                                x: q.x,
                                y: q.y,
                                z: q.z,
                                yaw: q.yaw,
                                pitch: 0,
                            };
                            let body = packet.encode();
                            let mut bytes: Vec<u8> = Vec::new();
                            bytes.push(0x08);
                            crate::codec::push_all(&mut bytes, &body);
                            proof {
                                assert((-1i8) as u8 == 0xffu8) by (bit_vector);
                                assert(bytes@ =~= teleport_bytes(q.x, q.y, q.z, q.yaw));
                            }
                            let mut r: Vec<Outbound> = Vec::new();
                            r.push(Outbound { to: id, bytes });
                            return r;
                        }
                        proof {
                            assert(self.players@.skip(j as int).skip(1) =~= self.players@.skip(
                                j + 1,
                            ));
                        }
                        j = j + 1;
                    }
                    proof {
                        assert(self.players@.skip(n as int).len() == 0);
                        assert(find_by_name(self.players@, name@) is None);
                    }
                    let prefix: Vec<u8> = vec![
                        0x26, 0x63, 0x43, 0x6f, 0x75, 0x6c, 0x64, 0x20, 0x6e, 0x6f, 0x74, 0x20,
                        0x66, 0x69, 0x6e, 0x64, 0x20, 0x70, 0x6c, 0x61, 0x79, 0x65, 0x72, 0x20,
                        0x60,
                    ];
                    let mut line: Vec<u8> = Vec::new();
                    crate::codec::push_all(&mut line, &prefix);
                    crate::codec::push_all(&mut line, &name);
                    line.push(0x60);
                    assert(line@ =~= crate::chat::not_found_text(name@));
                    let bytes = message_frame(0, line);
                    let mut r: Vec<Outbound> = Vec::new();
                    r.push(Outbound { to: id, bytes });
                    r
                },
                Err(e) => {
                    let start: Vec<u8> = vec![0x26, 0x63, 0x60];
                    let suffix: Vec<u8> = match e {
                        crate::commands::CommandError::NoCommand => vec![
                            0x60, 0x20, 0x69, 0x73, 0x20, 0x6e, 0x6f, 0x74, 0x20, 0x61, 0x20, 0x63,
                            0x6f, 0x6d, 0x6d, 0x61, 0x6e, 0x64,
                        ],
                        crate::commands::CommandError::CommandNotKnown => vec![
                            0x60, 0x20, 0x69, 0x73, 0x20, 0x6e, 0x6f, 0x74, 0x20, 0x6b, 0x6e, 0x6f,
                            0x77, 0x6e,
                        ],
                        crate::commands::CommandError::TooManyArguments => vec![
                            0x60, 0x20, 0x68, 0x61, 0x73, 0x20, 0x74, 0x6f, 0x6f, 0x20, 0x6d, 0x61,
                            0x6e, 0x79, 0x20, 0x61, 0x72, 0x67, 0x75, 0x6d, 0x65, 0x6e, 0x74, 0x73,
                        ],
                        crate::commands::CommandError::NotEnoughArguments => vec![
                            0x60, 0x20, 0x68, 0x61, 0x73, 0x20, 0x6e, 0x6f, 0x74, 0x20, 0x65, 0x6e,
                            0x6f, 0x75, 0x67, 0x68, 0x20, 0x61, 0x72, 0x67, 0x75, 0x6d, 0x65, 0x6e,
                            0x74, 0x73,
                        ],
                    };
                    let mut line: Vec<u8> = Vec::new();
                    crate::codec::push_all(&mut line, &start);
                    crate::codec::push_all(&mut line, &text);
                    crate::codec::push_all(&mut line, &suffix);
                    proof {
                        let tsfx = match e {
                            crate::commands::CommandError::NoCommand => crate::chat::no_command_suffix(),
                            crate::commands::CommandError::CommandNotKnown => crate::chat::not_known_suffix(),
                            crate::commands::CommandError::TooManyArguments => crate::chat::too_many_suffix(),
                            crate::commands::CommandError::NotEnoughArguments => crate::chat::not_enough_suffix(),
                        };
                        assert(line@ =~= crate::chat::command_error_text(text@, tsfx));
                    }
                    let bytes = message_frame(0, line);
                    let mut r: Vec<Outbound> = Vec::new();
                    r.push(Outbound { to: id, bytes });
                    r
                },
            }
        } else {
            proof {
                lemma_name_of_at(self.players@, id, k as int);
            }
            let sender_name = crate::chat::trim_spaces(&self.players[k].1.player_name);
            let open_code: Vec<u8> = vec![0x26, 0x37];
            let sep: Vec<u8> = vec![0x3a, 0x26, 0x66, 0x20];
            let mut line: Vec<u8> = Vec::new();
            crate::codec::push_all(&mut line, &open_code);
            crate::codec::push_all(&mut line, &sender_name);
            crate::codec::push_all(&mut line, &sep);
            crate::codec::push_all(&mut line, &text);
            assert(line@ =~= crate::chat::chat_line(
                crate::chat::trimmed(name_of(self.players@, id)),
                crate::chat::trimmed(p.message@),
            ));
            let bytes = message_frame(id, line);
            let mut r: Vec<Outbound> = Vec::new();
            let n = self.players.len();
            let mut j: usize = 0;
            while j < n
                invariant
                    j <= n,
                    n == self.players@.len(),
                    self.has_player(id),
                    !(crate::chat::trimmed(p.message@).len() > 0 && crate::chat::trimmed(
                        p.message@,
                    )[0] == 0x2f),
                    bytes@ == message_bytes(
                        id,
                        crate::chat::chat_line(
                            crate::chat::trimmed(name_of(self.players@, id)),
                            crate::chat::trimmed(p.message@),
                        ),
                    ),
                    r@.len() == j,
                    forall|t: int|
                        0 <= t < j ==> #[trigger] r@[t]@ == (self.players@[t].0, bytes@),
                decreases n - j,
            {
                r.push(Outbound { to: self.players[j].0, bytes: copy_bytes(&bytes) });
                j = j + 1;
            }
            r
        }
    }
}

/// The framed spawn announcement for a player under a given id.
pub open spec fn spawn_frame(
    pid: i8,
    name: Seq<u8>,
    x: i16,
    y: i16,
    z: i16,
    yaw: u8,
    pitch: u8,
) -> Seq<u8> {
    seq![0x07u8, pid as u8] + space_padded64(name) + be16(x) + be16(y) + be16(z) + seq![yaw, pitch]
}

/// The spawn exchange with every present player, in table order: each
/// learns of the newcomer under the newcomer's id, and the newcomer learns
/// of each under that player's id.
pub open spec fn spawn_exchange(
    s: Seq<(i8, Player)>,
    id: i8,
    name: Seq<u8>,
    sp: (i16, i16, i16),
) -> Seq<(i8, Seq<u8>)>
    decreases s.len(),
{
    if s.len() == 0 {
        Seq::empty()
    } else {
        spawn_exchange(s.drop_last(), id, name, sp) + seq![
            (s.last().0, spawn_frame(id, name, sp.0, sp.1, sp.2, 0, 0)),
            (
                id,
                spawn_frame(
                    s.last().0,
                    s.last().1.player_name@,
                    s.last().1.x,
                    s.last().1.y,
                    s.last().1.z,
                    s.last().1.yaw,
                    s.last().1.pitch,
                ),
            ),
        ]
    }
}

/// The framed spawn packet of a player under the given id.
fn spawn_frame_of(pl: &Player, pid: i8) -> (r: Vec<u8>)
    ensures
        r@ == spawn_frame(pid, pl.player_name@, pl.x, pl.y, pl.z, pl.yaw, pl.pitch),
{
    let packet = pl.to_spawn(pid);
    let body = packet.encode();
    let mut r: Vec<u8> = Vec::new();
    r.push(0x07);
    crate::codec::push_all(&mut r, &body);
    assert(r@ =~= spawn_frame(pid, pl.player_name@, pl.x, pl.y, pl.z, pl.yaw, pl.pitch));
    r
}

/// The framed `DisconnectPlayer` sent when a session fails to identify in
/// time.
pub fn timeout_kick() -> (r: Vec<u8>)
    ensures
        r@ == timeout_kick_bytes(),
{
    let reason: Vec<u8> = vec![
        0x49, 0x64, 0x65, 0x6e, 0x74, 0x69, 0x66, 0x69, 0x63, 0x61, 0x74, 0x69, 0x6f, 0x6e, 0x20,
        0x74, 0x69, 0x6d, 0x65, 0x6f, 0x75, 0x74,
    ];
    let packet = server::DisconnectPlayer { disconnect_reason: reason };
    let body = packet.encode();
    let mut r: Vec<u8> = Vec::new();
    r.push(0x0e);
    crate::codec::push_all(&mut r, &body);
    assert(r@ =~= timeout_kick_bytes());
    r
}

/// The ids of every live session: the player table's and then the
/// identification queue's.
pub open spec fn live_ids(c: Core) -> Seq<i8> {
    c.players@.map_values(|e: (i8, Player)| e.0) + c.pending@
}

/// Id uniqueness: at any instant of a well-formed core, the ids across the
/// player table and the identification queue are pairwise distinct, and
/// every one lies in `[1, min(limit, 127)]`.
pub proof fn lemma_id_uniqueness(c: Core)
    requires
        c.wf(),
    ensures
        forall|i: int, j: int|
            0 <= i < j < live_ids(c).len() ==> live_ids(c)[i] != live_ids(c)[j],
        forall|i: int|
            0 <= i < live_ids(c).len() ==> 1 <= #[trigger] live_ids(c)[i] <= (if c.ids.cap >= 0 {
                c.ids.cap as int
            } else {
                0
            }),
{
    let s = live_ids(c);
    let np = c.players@.len() as int;
    assert forall|i: int, j: int| 0 <= i < j < s.len() implies s[i] != s[j] by {
        if i < np && j < np {
            assert(c.players@[i].0 != c.players@[j].0);
        } else if i < np {
            assert(c.players@[i].0 != c.pending@[j - np]);
        } else {
            assert(c.pending@[i - np] != c.pending@[j - np]);
        }
    }
    assert forall|i: int| 0 <= i < s.len() implies 1 <= #[trigger] s[i] <= (if c.ids.cap >= 0 {
        c.ids.cap as int
    } else {
        0
    }) by {
        if i < np {
            assert(c.ids.live(c.players@[i].0));
        } else {
            assert(c.ids.live(c.pending@[i - np]));
        }
    }
}

} // verus!
