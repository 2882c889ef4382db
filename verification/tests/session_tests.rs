use voxel_core::fixed_string::IntoMinecraftString;
use voxel_core::fixed_string::MinecraftString;
use voxel_core::packets::C2sMessage;
use voxel_core::packets::C2sPlayerIdentification;
use voxel_core::packets::ProtocolError;
use voxel_core::session::c2s_body_len;
use voxel_core::session::handle_active_packet;
use voxel_core::session::identify_session;
use voxel_core::session::ClientEvent;
use voxel_core::session::Directed;
use voxel_core::session::Registry;
use voxel_core::session::S2cPacket;
use voxel_core::session::SessionState;
use voxel_core::world::World;

fn server_name() -> MinecraftString {
    String::from("Test Server").to_mcstring()
}

fn server_motd() -> MinecraftString {
    String::from("Test MOTD").to_mcstring()
}

fn ident(name: &str) -> Result<C2sPlayerIdentification, ProtocolError> {
    Ok(C2sPlayerIdentification {
        protocol_version: 0x07,
        username: String::from(name).to_mcstring(),
        verification_key: String::new().to_mcstring(),
    })
}

fn join(reg: &mut Registry, world: &World, name: &str) -> (usize, Vec<Directed>) {
    let idx = reg.register();
    let out = identify_session(reg, idx, ident(name), world, &server_name(), &server_motd());
    (idx, out)
}

#[test]
fn ids_are_assigned_sequentially() {
    let world = World::new(4, 4, 4);
    let mut reg = Registry::new();
    let (a, _) = join(&mut reg, &world, "a");
    let (b, _) = join(&mut reg, &world, "b");
    let (c, _) = join(&mut reg, &world, "c");
    assert_eq!(reg.sessions[a].id, 0);
    assert_eq!(reg.sessions[b].id, 1);
    assert_eq!(reg.sessions[c].id, 2);
    assert_eq!(reg.counter.next_id, 3);
    assert!(reg.sessions.iter().all(|s| s.state == SessionState::Active));
}

#[test]
fn identification_transcript_shape() {
    let world = World::new(4, 4, 4);
    let mut reg = Registry::new();
    let (a, out) = join(&mut reg, &world, "first");
    // Handshake, LevelInitialize, one or more chunks, LevelFinalize; no
    // spawns, as nobody else is active.
    assert!(out.len() >= 4);
    assert!(out.iter().all(|d| d.recipient == a));
    assert!(matches!(out[0].packet, S2cPacket::Handshake(_)));
    assert!(matches!(out[1].packet, S2cPacket::LevelInitialize(_)));
    assert!(matches!(out[out.len() - 2].packet, S2cPacket::LevelDataChunk(_)));
    match &out[out.len() - 1].packet {
        S2cPacket::LevelFinalize(f) => {
            assert_eq!((f.x_size, f.y_size, f.z_size), (4, 4, 4));
        },
        other => panic!("expected LevelFinalize, got {:?}", other),
    }
    match &out[out.len() - 2].packet {
        S2cPacket::LevelDataChunk(c) => assert_eq!(c.percent_complete, 100),
        _ => unreachable!(),
    }
}

#[test]
fn spawn_visibility_runs_in_both_directions() {
    let world = World::new(4, 4, 4);
    let mut reg = Registry::new();
    let (a, _) = join(&mut reg, &world, "a");
    let a_id = reg.sessions[a].id;
    let (b, out) = join(&mut reg, &world, "b");
    let b_id = reg.sessions[b].id;
    // A's client is told about B ...
    assert!(out.iter().any(|d| {
        d.recipient == a && matches!(&d.packet, S2cPacket::SpawnPlayer(sp) if sp.player_id == b_id)
    }));
    // ... and B's client is told about A.
    assert!(out.iter().any(|d| {
        d.recipient == b && matches!(&d.packet, S2cPacket::SpawnPlayer(sp) if sp.player_id == a_id)
    }));
}

#[test]
fn malformed_identification_closes_only_that_session() {
    let world = World::new(4, 4, 4);
    let mut reg = Registry::new();
    let bad = reg.register();
    // An invalid leading packet id fails decoding; the session closes.
    let parsed = C2sPlayerIdentification::decode(&[0x42, 0, 0]);
    assert!(parsed.is_err());
    let out = identify_session(&mut reg, bad, parsed, &world, &server_name(), &server_motd());
    assert!(out.is_empty());
    assert_eq!(reg.sessions[bad].state, SessionState::Closed);
    assert_eq!(reg.counter.next_id, 0);
    // A later, well-formed connection still completes identification.
    let (good, out) = join(&mut reg, &world, "fine");
    assert_eq!(reg.sessions[good].state, SessionState::Active);
    assert_eq!(reg.sessions[good].id, 0);
    assert!(!out.is_empty());
}

#[test]
fn chat_echoes_self_as_minus_one() {
    let world = World::new(4, 4, 4);
    let mut reg = Registry::new();
    let (x, _) = join(&mut reg, &world, "x");
    let (y, _) = join(&mut reg, &world, "y");
    let (a, _) = join(&mut reg, &world, "a");
    assert_eq!(reg.sessions[a].id, 2);
    let chat = C2sMessage { player_id: 2, message: String::from("hello").to_mcstring() };
    let out = handle_active_packet(&mut reg, a, ClientEvent::Packet { bytes: chat.encode() });
    assert_eq!(out.len(), 3);
    let delivered = |to: usize| {
        out.iter()
            .find(|d| d.recipient == to)
            .map(|d| match &d.packet {
                S2cPacket::Message(m) => (m.player_id, m.message),
                other => panic!("expected Message, got {:?}", other),
            })
            .expect("every active session hears the chat")
    };
    assert_eq!(delivered(a), (-1, chat.message));
    assert_eq!(delivered(x), (2, chat.message));
    assert_eq!(delivered(y), (2, chat.message));
}

#[test]
fn no_data_changes_nothing() {
    let world = World::new(4, 4, 4);
    let mut reg = Registry::new();
    let (a, _) = join(&mut reg, &world, "a");
    let out = handle_active_packet(&mut reg, a, ClientEvent::NoData);
    assert!(out.is_empty());
    assert_eq!(reg.sessions[a].state, SessionState::Active);
}

#[test]
fn unknown_packet_id_is_ignored() {
    let world = World::new(4, 4, 4);
    let mut reg = Registry::new();
    let (a, _) = join(&mut reg, &world, "a");
    let out = handle_active_packet(&mut reg, a, ClientEvent::Packet { bytes: vec![0x55] });
    assert!(out.is_empty());
    assert_eq!(reg.sessions[a].state, SessionState::Active);
}

#[test]
fn truncated_chat_closes_the_session() {
    let world = World::new(4, 4, 4);
    let mut reg = Registry::new();
    let (a, _) = join(&mut reg, &world, "a");
    let out = handle_active_packet(&mut reg, a, ClientEvent::Packet { bytes: vec![0x0d, 0x02] });
    assert!(out.is_empty());
    assert_eq!(reg.sessions[a].state, SessionState::Closed);
}

#[test]
fn connection_loss_closes_only_that_session() {
    let world = World::new(4, 4, 4);
    let mut reg = Registry::new();
    let (a, _) = join(&mut reg, &world, "a");
    let (b, _) = join(&mut reg, &world, "b");
    let out = handle_active_packet(&mut reg, a, ClientEvent::ConnectionLost);
    assert!(out.is_empty());
    assert_eq!(reg.sessions[a].state, SessionState::Closed);
    assert_eq!(reg.sessions[b].state, SessionState::Active);
}

#[test]
fn closed_sessions_no_longer_hear_broadcasts() {
    let world = World::new(4, 4, 4);
    let mut reg = Registry::new();
    let (a, _) = join(&mut reg, &world, "a");
    let (b, _) = join(&mut reg, &world, "b");
    handle_active_packet(&mut reg, b, ClientEvent::ConnectionLost);
    let chat = C2sMessage { player_id: 0, message: String::from("anyone?").to_mcstring() };
    let out = handle_active_packet(&mut reg, a, ClientEvent::Packet { bytes: chat.encode() });
    assert_eq!(out.len(), 1);
    assert_eq!(out[0].recipient, a);
}

#[test]
fn s2c_packet_encode_matches_inner_packet() {
    let msg = voxel_core::packets::S2cMessage::new(4, String::from("hey").to_mcstring());
    let wrapped = S2cPacket::Message(voxel_core::packets::S2cMessage::new(
        4,
        String::from("hey").to_mcstring(),
    ));
    assert_eq!(wrapped.encode(), msg.encode());
}

#[test]
fn exhausted_id_space_refuses_the_join() {
    let world = World::new(4, 4, 4);
    let mut reg = Registry::new();
    reg.counter.next_id = i8::MAX;
    let idx = reg.register();
    let out = identify_session(&mut reg, idx, ident("late"), &world, &server_name(), &server_motd());
    assert!(out.is_empty());
    assert_eq!(reg.sessions[idx].state, SessionState::Closed);
    assert_eq!(reg.counter.next_id, i8::MAX);
}

#[test]
fn body_lengths_for_known_ids() {
    assert_eq!(c2s_body_len(0x00), Some(129));
    assert_eq!(c2s_body_len(0x0d), Some(65));
    assert_eq!(c2s_body_len(0x55), None);
}
