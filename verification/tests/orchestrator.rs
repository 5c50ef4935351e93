//! Session orchestration: admission, identification, broadcasts, chat,
//! commands, and disconnects, on concrete worlds.

use classicl_server::client;
use classicl_server::session::{timeout_kick, AdmitOutcome, Core};
use classicl_server::terrain::Terrain;

fn pad64(s: &[u8]) -> Vec<u8> {
    let mut v = s.to_vec();
    v.resize(64, 0x20);
    v
}

fn stone_world() -> Terrain {
    Terrain::from_parts((4, 4, 4), (320, 358, 320), vec![1u8; 64]).unwrap()
}

fn identification(name: &[u8]) -> client::PlayerIdentification {
    client::PlayerIdentification {
        protocol_version: 0x07,
        username: name.to_vec(),
        verification_key: b"".to_vec(),
        unused: 0,
    }
}

fn admit_id(core: &mut Core) -> (i8, Vec<u8>) {
    match core.on_client_connected() {
        AdmitOutcome::Admitted(id, greeting) => (id, greeting),
        AdmitOutcome::Full(_) => panic!("server unexpectedly full"),
    }
}

#[test]
fn join_sends_greeting_level_and_spawns() {
    let world = stone_world();
    let mut core = Core::new(b"Test".to_vec(), b"motd".to_vec(), None);
    let (id, greeting) = admit_id(&mut core);
    assert_eq!(id, 1);
    assert_eq!(greeting[0], 0x00);
    assert_eq!(greeting[1], 0x07);
    assert_eq!(&greeting[2..66], &pad64(b"Test")[..]);
    assert_eq!(&greeting[66..130], &pad64(b"motd")[..]);
    assert_eq!(greeting[130], 0x00);

    let actions = core.on_player_identification(id, identification(b"alice"), &world);
    // The level run, no spawn exchange (empty table), then the self-spawn.
    assert_eq!(actions.len(), 2);
    assert_eq!(actions[0].to, 1);
    assert_eq!(actions[0].bytes[0], 0x02);
    let run = &actions[0].bytes;
    assert_eq!(&run[run.len() - 7..], &[0x04, 0, 4, 0, 4, 0, 4]);
    let selfspawn = &actions[1];
    assert_eq!(selfspawn.to, 1);
    assert_eq!(selfspawn.bytes[0], 0x07);
    assert_eq!(selfspawn.bytes[1], 0xff);
    assert_eq!(&selfspawn.bytes[2..66], &pad64(b"alice")[..]);
    // Spawned at the world's spawn point.
    assert_eq!(&selfspawn.bytes[66..72], &[1, 64, 1, 102, 1, 64]);
    assert_eq!(core.players.len(), 1);
    assert_eq!(core.pending.len(), 0);
}

#[test]
fn second_joiner_exchanges_spawns() {
    let world = stone_world();
    let mut core = Core::new(b"Test".to_vec(), b"motd".to_vec(), None);
    let (a, _) = admit_id(&mut core);
    core.on_player_identification(a, identification(b"alice"), &world);
    let (b, _) = admit_id(&mut core);
    assert_eq!(b, 2);
    let actions = core.on_player_identification(b, identification(b"bob"), &world);
    // Level run, spawn of bob to alice, spawn of alice to bob, self-spawn.
    assert_eq!(actions.len(), 4);
    assert_eq!(actions[1].to, a);
    assert_eq!(actions[1].bytes[0], 0x07);
    assert_eq!(actions[1].bytes[1], b as u8);
    assert_eq!(&actions[1].bytes[2..66], &pad64(b"bob")[..]);
    assert_eq!(actions[2].to, b);
    assert_eq!(actions[2].bytes[1], a as u8);
    assert_eq!(&actions[2].bytes[2..66], &pad64(b"alice")[..]);
    assert_eq!(actions[3].to, b);
    assert_eq!(actions[3].bytes[1], 0xff);
}

#[test]
fn unqueued_identification_is_ignored() {
    let world = stone_world();
    let mut core = Core::new(b"Test".to_vec(), b"motd".to_vec(), None);
    let actions = core.on_player_identification(9, identification(b"mallory"), &world);
    assert!(actions.is_empty());
    assert!(core.players.is_empty());
}

#[test]
fn server_full_refusal() {
    let world = stone_world();
    let mut core = Core::new(b"Test".to_vec(), b"motd".to_vec(), Some(1));
    let (a, _) = admit_id(&mut core);
    core.on_player_identification(a, identification(b"alice"), &world);
    match core.on_client_connected() {
        AdmitOutcome::Admitted(_, _) => panic!("expected refusal"),
        AdmitOutcome::Full(bytes) => {
            assert_eq!(bytes[0], 0x0e);
            assert_eq!(
                &bytes[1..65],
                &pad64(b"&cSorry, Test &cis full right now.")[..]
            );
        }
    }
}

#[test]
fn set_block_updates_world_and_reaches_everyone() {
    let mut world = stone_world();
    let mut core = Core::new(b"Test".to_vec(), b"motd".to_vec(), None);
    let (a, _) = admit_id(&mut core);
    core.on_player_identification(a, identification(b"alice"), &world);
    let (b, _) = admit_id(&mut core);
    core.on_player_identification(b, identification(b"bob"), &world);

    let actions = core.on_set_block(
        &mut world,
        a,
        client::SetBlock {
            x: 1,
            y: 2,
            z: 3,
            mode: 1,
            block_type: 0x12,
        },
    );
    assert_eq!(actions.len(), 2);
    let expected = vec![0x06, 0, 1, 0, 2, 0, 3, 0x12];
    assert_eq!(actions[0].to, a);
    assert_eq!(actions[0].bytes, expected);
    assert_eq!(actions[1].to, b);
    assert_eq!(actions[1].bytes, expected);
    assert_eq!(world.inner[1 + 4 * (3 + 4 * 2)], 0x12);
}

#[test]
fn set_block_mode_zero_destroys() {
    let mut world = stone_world();
    let mut core = Core::new(b"Test".to_vec(), b"motd".to_vec(), None);
    let (a, _) = admit_id(&mut core);
    core.on_player_identification(a, identification(b"alice"), &world);
    core.on_set_block(
        &mut world,
        a,
        client::SetBlock {
            x: 0,
            y: 0,
            z: 0,
            mode: 0,
            block_type: 0x12,
        },
    );
    assert_eq!(world.inner[0], 0);
}

#[test]
fn position_broadcast_skips_the_sender_and_is_idempotent() {
    let world = stone_world();
    let mut core = Core::new(b"Test".to_vec(), b"motd".to_vec(), None);
    let (a, _) = admit_id(&mut core);
    core.on_player_identification(a, identification(b"alice"), &world);
    let (b, _) = admit_id(&mut core);
    core.on_player_identification(b, identification(b"bob"), &world);

    let report = client::PositionOrientation {
        player_id: 255,
        x: 100,
        y: 200,
        z: 300,
        yaw: 10,
        pitch: 20,
    };
    let first = core.on_position_orientation(a, report);
    assert_eq!(first.len(), 1);
    assert_eq!(first[0].to, b);
    assert_eq!(
        first[0].bytes,
        vec![0x08, a as u8, 0, 100, 0, 200, 1, 44, 10, 20]
    );
    let row = row_fields(&core.players.iter().find(|e| e.0 == a).unwrap().1);
    let second = core.on_position_orientation(a, report);
    let row2 = row_fields(&core.players.iter().find(|e| e.0 == a).unwrap().1);
    assert_eq!(row, row2);
    assert_eq!(second[0].bytes, first[0].bytes);
}

fn row_fields(p: &classicl_server::session::Player) -> (Vec<u8>, i16, i16, i16, u8, u8) {
    (
        p.player_name.clone(),
        p.x,
        p.y,
        p.z,
        p.yaw,
        p.pitch,
    )
}

#[test]
fn chat_is_formatted_and_broadcast() {
    let world = stone_world();
    let mut core = Core::new(b"Test".to_vec(), b"motd".to_vec(), None);
    let (a, _) = admit_id(&mut core);
    core.on_player_identification(a, identification(b"alice"), &world);
    let actions = core.on_message(
        a,
        client::Message {
            unused: 0,
            message: pad64(b"hi there"),
        },
    );
    assert_eq!(actions.len(), 1);
    assert_eq!(actions[0].to, a);
    assert_eq!(actions[0].bytes[0], 0x0d);
    assert_eq!(actions[0].bytes[1], a as u8);
    assert_eq!(&actions[0].bytes[2..66], &pad64(b"&7alice:&f hi there")[..]);
}

#[test]
fn tp_to_unknown_player_reports_only_to_sender() {
    let world = stone_world();
    let mut core = Core::new(b"Test".to_vec(), b"motd".to_vec(), None);
    let (a, _) = admit_id(&mut core);
    core.on_player_identification(a, identification(b"alice"), &world);
    let actions = core.on_message(
        a,
        client::Message {
            unused: 0,
            message: pad64(b"/tp ghost"),
        },
    );
    assert_eq!(actions.len(), 1);
    assert_eq!(actions[0].to, a);
    assert_eq!(actions[0].bytes[0], 0x0d);
    assert_eq!(actions[0].bytes[1], 0);
    assert_eq!(
        &actions[0].bytes[2..66],
        &pad64(b"&cCould not find player `ghost`")[..]
    );
}

#[test]
fn tp_to_known_player_teleports_the_sender() {
    let world = stone_world();
    let mut core = Core::new(b"Test".to_vec(), b"motd".to_vec(), None);
    let (a, _) = admit_id(&mut core);
    core.on_player_identification(a, identification(b"alice"), &world);
    let (b, _) = admit_id(&mut core);
    core.on_player_identification(b, identification(b"bob"), &world);
    core.on_position_orientation(
        b,
        client::PositionOrientation {
            player_id: 255,
            x: 11,
            y: 22,
            z: 33,
            yaw: 44,
            pitch: 55,
        },
    );
    let actions = core.on_message(
        a,
        client::Message {
            unused: 0,
            message: pad64(b"/tp bob"),
        },
    );
    assert_eq!(actions.len(), 1);
    assert_eq!(actions[0].to, a);
    // Teleport with player id -1, bob's coordinates and yaw, pitch reset.
    assert_eq!(actions[0].bytes, vec![0x08, 0xff, 0, 11, 0, 22, 0, 33, 44, 0]);
}

#[test]
fn command_errors_are_reported_in_red() {
    let world = stone_world();
    let mut core = Core::new(b"Test".to_vec(), b"motd".to_vec(), None);
    let (a, _) = admit_id(&mut core);
    core.on_player_identification(a, identification(b"alice"), &world);
    let cases: Vec<(&[u8], &[u8])> = vec![
        (b"/tp", b"&c`/tp` has not enough arguments"),
        (b"/tp a b", b"&c`/tp a b` has too many arguments"),
        (b"/fly", b"&c`/fly` is not known"),
        (b"/", b"&c`/` is not a command"),
    ];
    for (input, reply) in cases {
        let actions = core.on_message(
            a,
            client::Message {
                unused: 0,
                message: pad64(input),
            },
        );
        assert_eq!(actions.len(), 1);
        assert_eq!(actions[0].to, a);
        assert_eq!(&actions[0].bytes[2..66], &pad64(reply)[..], "case {:?}", input);
    }
}

#[test]
fn disconnect_recycles_the_id_and_despawns() {
    let world = stone_world();
    let mut core = Core::new(b"Test".to_vec(), b"motd".to_vec(), None);
    let (a, _) = admit_id(&mut core);
    core.on_player_identification(a, identification(b"alice"), &world);
    let (b, _) = admit_id(&mut core);
    core.on_player_identification(b, identification(b"bob"), &world);
    let (c, _) = admit_id(&mut core);
    core.on_player_identification(c, identification(b"carol"), &world);
    assert_eq!((a, b, c), (1, 2, 3));

    let actions = core.on_client_disconnected(b);
    assert_eq!(core.players.len(), 2);
    assert_eq!(actions.len(), 2);
    assert_eq!(actions[0].to, a);
    assert_eq!(actions[0].bytes, vec![0x0c, b as u8]);
    assert_eq!(actions[1].to, c);

    // The freed id is assigned to the next connection.
    let (d, _) = admit_id(&mut core);
    assert_eq!(d, 2);
}

#[test]
fn pending_session_disconnect_leaves_no_trace() {
    let mut core = Core::new(b"Test".to_vec(), b"motd".to_vec(), None);
    let (a, _) = admit_id(&mut core);
    assert_eq!(core.pending.len(), 1);
    let actions = core.on_client_disconnected(a);
    assert!(actions.is_empty());
    assert!(core.pending.is_empty());
    let (again, _) = admit_id(&mut core);
    assert_eq!(again, a);
}

#[test]
fn timeout_kick_carries_the_reason() {
    let bytes = timeout_kick();
    assert_eq!(bytes[0], 0x0e);
    assert_eq!(&bytes[1..65], &pad64(b"Identification timeout")[..]);
}
