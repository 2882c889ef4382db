//! The per-connection session lifecycle and the broadcast router. A session
//! moves through `Unidentified -> Active -> Closed`; the registry owns every
//! session, hands out player ids, and describes exactly which packets go to
//! which session when a player joins or chats. All socket work stays outside:
//! these functions take decoded input and return directed packets to send.
use vstd::prelude::*;

use crate::fixed_string::MinecraftString;
use crate::fixed_string::lemma_mcstring_len;
use crate::packets::Coordinate;
use crate::packets::ProtocolError;
use crate::packets::C2sPlayerIdentification;
use crate::packets::C2sMessage;
use crate::packets::S2cHandshake;
use crate::packets::S2cLevelInitialize;
use crate::packets::S2cLevelDataChunk;
use crate::packets::S2cLevelFinalize;
use crate::packets::S2cMessage;
use crate::packets::S2cSpawnPlayer;
use crate::world::World;
use crate::world::gzip_of;
use crate::world::spec_frame_count;
use crate::world::spec_frame_len;

verus! {

broadcast use lemma_mcstring_len;

/// Hands out player ids: starts at zero, goes up by one per successful
/// identification, and never reuses a value.
pub struct PlayerIdCounter {
    pub next_id: i8,
}

/// Where a session stands in its life: not yet identified, fully joined, or
/// terminally closed.
#[derive(Clone, Copy, Debug, PartialEq, Eq, Structural)]
pub enum SessionState {
    Unidentified,
    Active,
    Closed,
}

/// A player's fixed-point position in the world.
#[derive(Clone, Copy, Debug, PartialEq, Eq, Structural)]
pub struct Position {
    pub x: Coordinate,
    pub y: Coordinate,
    pub z: Coordinate,
}

/// The origin position every player spawns at.
pub open spec fn spec_zero_position() -> Position {
    Position {
        x: Coordinate { bits: 0 },
        y: Coordinate { bits: 0 },
        z: Coordinate { bits: 0 },
    }
}

/// Server-side record of one connected client. The id and name are
/// meaningful once the state is `Active`; the connection handle itself lives
/// with the caller, keyed by this session's slot in the registry.
#[derive(Clone, Copy, Debug)]
pub struct Session {
    pub id: i8,
    pub name: MinecraftString,
    pub position: Position,
    pub state: SessionState,
}

/// Every server-to-client packet, as one value for routing.
#[derive(Debug, PartialEq)]
pub enum S2cPacket {
    Handshake(S2cHandshake),
    LevelInitialize(S2cLevelInitialize),
    LevelDataChunk(S2cLevelDataChunk),
    LevelFinalize(S2cLevelFinalize),
    Message(S2cMessage),
    SpawnPlayer(S2cSpawnPlayer),
}

impl S2cPacket {
    /// The wire bytes of the carried packet.
    pub open spec fn spec_encode(self) -> Seq<u8> {
        match self {
            S2cPacket::Handshake(p) => p.spec_encode(),
            S2cPacket::LevelInitialize(p) => p.spec_encode(),
            S2cPacket::LevelDataChunk(p) => p.spec_encode(),
            S2cPacket::LevelFinalize(p) => p.spec_encode(),
            S2cPacket::Message(p) => p.spec_encode(),
            S2cPacket::SpawnPlayer(p) => p.spec_encode(),
        }
    }

    /// Writes the carried packet.
    pub fn encode(&self) -> (r: Vec<u8>)
        ensures
            r@ == self.spec_encode(),
    {
        match self {
            S2cPacket::Handshake(p) => p.encode(),
            S2cPacket::LevelInitialize(p) => p.encode(),
            S2cPacket::LevelDataChunk(p) => p.encode(),
            S2cPacket::LevelFinalize(p) => p.encode(),
            S2cPacket::Message(p) => p.encode(),
            S2cPacket::SpawnPlayer(p) => p.encode(),
        }
    }
}

/// One packet bound for one session: `recipient` is the session's slot in
/// the registry.
#[derive(Debug, PartialEq)]
pub struct Directed {
    pub recipient: usize,
    pub packet: S2cPacket,
}

/// The slots of the sessions that are active, in ascending order.
pub open spec fn active_indices(s: Seq<Session>) -> Seq<int>
    decreases s.len(),
{
    if s.len() == 0 {
        Seq::empty()
    } else if s.last().state == SessionState::Active {
        active_indices(s.drop_last()).push(s.len() - 1)
    } else {
        active_indices(s.drop_last())
    }
}

/// Extending the prefix by one session appends its slot exactly when that
/// session is active.
proof fn lemma_active_indices_step(s: Seq<Session>, j: int)
    requires
        0 <= j < s.len(),
    ensures
        active_indices(s.take(j + 1)) == if s[j].state == SessionState::Active {
            active_indices(s.take(j)).push(j)
        } else {
            active_indices(s.take(j))
        },
{
    assert(s.take(j + 1).drop_last() =~= s.take(j));
    assert(s.take(j + 1).last() == s[j]);
}

/// Every active session's slot is listed.
pub proof fn lemma_active_indices_complete(s: Seq<Session>, j: int)
    requires
        0 <= j < s.len(),
        s[j].state == SessionState::Active,
    ensures
        exists|m: int|
            0 <= m < active_indices(s).len() && active_indices(s)[m] == j,
    decreases s.len(),
{
    if j == s.len() - 1 {
        let act = active_indices(s);
        assert(act[act.len() - 1] == j);
    } else {
        lemma_active_indices_complete(s.drop_last(), j);
        let sub = active_indices(s.drop_last());
        let m = choose|m: int| 0 <= m < sub.len() && sub[m] == j;
        assert(active_indices(s)[m] == j);
    }
}

/// Tracks every session and the id counter. Sessions keep their slot for
/// life; a closed session's slot is never reused while it is listed, so a
/// `Directed` recipient stays meaningful for the whole broadcast.
pub struct Registry {
    pub sessions: Vec<Session>,
    pub counter: PlayerIdCounter,
}

impl Registry {
    /// The registry's invariant: the counter never goes negative, every
    /// active session's id was handed out by the counter, and no two active
    /// sessions share an id.
    pub open spec fn wf(self) -> bool {
        &&& 0 <= self.counter.next_id
        &&& forall|i: int|
            0 <= i < self.sessions@.len() && self.sessions@[i].state == SessionState::Active
                ==> 0 <= (#[trigger] self.sessions@[i]).id < self.counter.next_id
        &&& forall|i: int, j: int|
            0 <= i < j < self.sessions@.len() && self.sessions@[i].state == SessionState::Active
                && self.sessions@[j].state == SessionState::Active ==> (
            #[trigger] self.sessions@[i]).id != (#[trigger] self.sessions@[j]).id
    }

    /// An empty registry with the counter at zero.
    pub fn new() -> (r: Self)
        ensures
            r.wf(),
            r.sessions@.len() == 0,
            r.counter.next_id == 0,
    {
        Registry { sessions: Vec::new(), counter: PlayerIdCounter { next_id: 0 } }
    }

    /// Admits a fresh connection: a new unidentified session takes the next
    /// slot, which is returned so the caller can key the connection by it.
    pub fn register(&mut self) -> (idx: usize)
        requires
            old(self).wf(),
        ensures
            final(self).wf(),
            idx == old(self).sessions@.len(),
            final(self).sessions@.len() == old(self).sessions@.len() + 1,
            forall|i: int|
                0 <= i < old(self).sessions@.len() ==> final(self).sessions@[i] == old(
                    self,
                ).sessions@[i],
            final(self).sessions@[idx as int].state == SessionState::Unidentified,
            final(self).counter == old(self).counter,
    {
        let idx = self.sessions.len();
        self.sessions.push(
            Session {
                id: 0,
                name: MinecraftString::empty(),
                position: Position {
                    x: Coordinate::zero(),
                    y: Coordinate::zero(),
                    z: Coordinate::zero(),
                },
                state: SessionState::Unidentified,
            },
        );
        idx
    }
}

/// Id assignment stays fresh: under the registry invariant, the id the next
/// successful identification will assign is carried by no active session.
pub proof fn lemma_assigned_id_fresh(reg: Registry)
    requires
        reg.wf(),
    ensures
        forall|i: int|
            0 <= i < reg.sessions@.len() && reg.sessions@[i].state == SessionState::Active ==> (
            #[trigger] reg.sessions@[i]).id != reg.counter.next_id,
{
}

/// Whether `p` announces a player with exactly these id, name, position and
/// level view angles.
pub open spec fn spawn_packet_is(p: S2cPacket, pid: i8, pname: MinecraftString, pos: Position) -> bool {
    match p {
        S2cPacket::SpawnPlayer(sp) => {
            &&& sp.player_id == pid
            &&& sp.player_name == pname
            &&& sp.x == pos.x
            &&& sp.y == pos.y
            &&& sp.z == pos.z
            &&& sp.yaw == 0
            &&& sp.pitch == 0
        },
        _ => false,
    }
}

/// Whether `p` delivers exactly this chat line under this sender id.
pub open spec fn message_packet_is(p: S2cPacket, pid: i8, text: Seq<u8>) -> bool {
    match p {
        S2cPacket::Message(m) => m.player_id == pid && m.message@ == text,
        _ => false,
    }
}

/// Whether `p` carries frame `f` of the compressed snapshot `gz`, split into
/// `nf` frames: the frame's true length, the frame's payload, zero padding,
/// and the cumulative progress percentage.
pub open spec fn chunk_packet_is(p: S2cPacket, gz: Seq<u8>, f: int, nf: int) -> bool {
    match p {
        S2cPacket::LevelDataChunk(c) => {
            &&& c.chunk_length == spec_frame_len(gz.len() as int, f)
            &&& c.chunk_data@.subrange(0, c.chunk_length as int) == gz.subrange(
                1024 * f,
                1024 * f + c.chunk_length,
            )
            &&& forall|j: int| c.chunk_length <= j < 1024 ==> c.chunk_data@[j] == 0
            &&& c.percent_complete == (100 * (f + 1)) / nf
        },
        _ => false,
    }
}

/// The spawn announcements after slot `idx` identifies as `new_id` with name
/// `new_name`: for the `m`-th active slot, one packet telling that slot about
/// the newcomer (who stands at the origin), and one telling the newcomer
/// about that slot's player.
pub open spec fn spawn_section(
    sessions: Seq<Session>,
    idx: int,
    new_id: i8,
    new_name: MinecraftString,
    base: int,
    out: Seq<Directed>,
    act: Seq<int>,
) -> bool {
    forall|m: int|
        0 <= m < act.len() ==> {
            &&& out[base + 2 * m].recipient == #[trigger] act[m]
            &&& spawn_packet_is(out[base + 2 * m].packet, new_id, new_name, spec_zero_position())
            &&& out[base + 2 * m + 1].recipient == idx
            &&& spawn_packet_is(
                out[base + 2 * m + 1].packet,
                sessions[act[m]].id,
                sessions[act[m]].name,
                sessions[act[m]].position,
            )
        }
}

/// Everything a successful identification of slot `idx` sends, in order: to
/// the new client a handshake, the level transfer (initialize, every
/// compressed frame, finalize), then, for each session that was already
/// active, a spawn announcement in each direction.
pub open spec fn identify_transcript(
    sessions: Seq<Session>,
    idx: int,
    new_id: i8,
    new_name: MinecraftString,
    gz: Seq<u8>,
    xs: u16,
    ys: u16,
    zs: u16,
    server_name: MinecraftString,
    server_motd: MinecraftString,
    out: Seq<Directed>,
) -> bool {
    let nf = spec_frame_count(gz.len() as int);
    let act = active_indices(sessions);
    let base = 3 + nf;
    &&& out.len() == base + 2 * act.len()
    &&& out[0].recipient == idx
    &&& out[0].packet matches S2cPacket::Handshake(h) && h == (S2cHandshake {
        protocol_version: 0x07,
        server_name,
        server_motd,
        user_type: 0x00,
    })
    &&& out[1].recipient == idx
    &&& out[1].packet matches S2cPacket::LevelInitialize(_)
    &&& forall|f: int|
        0 <= f < nf ==> (#[trigger] out[2 + f]).recipient == idx && chunk_packet_is(
            out[2 + f].packet,
            gz,
            f,
            nf,
        )
    &&& out[2 + nf].recipient == idx
    &&& out[2 + nf].packet matches S2cPacket::LevelFinalize(fin) && fin == (S2cLevelFinalize {
        x_size: xs as i16,
        y_size: ys as i16,
        z_size: zs as i16,
    })
    &&& spawn_section(sessions, idx, new_id, new_name, base, out, act)
}

/// Everything a chat line from the active slot `sender` sends: one message
/// packet to every active slot, carrying the sender's id — except to the
/// sender itself, which sees the self-echo id `-1`.
pub open spec fn chat_transcript(
    sessions: Seq<Session>,
    sender: int,
    sender_id: i8,
    text: Seq<u8>,
    out: Seq<Directed>,
) -> bool {
    let act = active_indices(sessions);
    &&& out.len() == act.len()
    &&& forall|m: int|
        0 <= m < act.len() ==> (#[trigger] out[m]).recipient == act[m] && message_packet_is(
            out[m].packet,
            if act[m] == sender {
                -1 as i8
            } else {
                sender_id
            },
            text,
        )
}

/// Cumulative progress of frame `f` of `nf`, in percent; the last frame
/// reports 100.
fn chunk_percent(f: usize, nf: usize) -> (r: u8)
    requires
        f < nf,
    ensures
        r == (100 * (f + 1)) / nf as int,
{
    let p: u128 = (100u128 * ((f as u128) + 1)) / (nf as u128);
    proof {
        vstd::arithmetic::div_mod::lemma_div_is_ordered(
            100 * (f + 1) as int,
            100 * nf as int,
            nf as int,
        );
        vstd::arithmetic::div_mod::lemma_div_multiples_vanish(100, nf as int);
    }
    p as u8
}

/// What one tick of reading from an active session's connection yielded:
/// nothing waiting, one packet's bytes (the leading id byte, plus the body
/// the id calls for), or a connection that cannot be read any more.
#[derive(Debug)]
pub enum ClientEvent {
    NoData,
    Packet { bytes: Vec<u8> },
    ConnectionLost,
}

/// How many bytes follow the leading id byte of a client packet, for the ids
/// this server understands.
pub fn c2s_body_len(id: u8) -> (r: Option<usize>)
    ensures
        id == 0x00 ==> r == Some(129usize),
        id == 0x0d ==> r == Some(65usize),
        id != 0x00 && id != 0x0d ==> r is None,
{
    if id == 0x00 {
        Some(129)
    } else if id == 0x0d {
        Some(65)
    } else {
        None
    }
}

/// Drives one unidentified session through identification: on a well-formed
/// identification packet the session becomes active under a fresh id and the
/// returned packets hand it the handshake, the whole level, and the spawn
/// announcements in both directions; on a decode failure — or with the id
/// space exhausted — the session closes and nothing is sent. Either way no
/// other session changes.
#[verifier::rlimit(80)]
#[verifier::loop_isolation(false)]
pub fn identify_session(
    reg: &mut Registry,
    idx: usize,
    ident: Result<C2sPlayerIdentification, ProtocolError>,
    world: &World,
    server_name: &MinecraftString,
    server_motd: &MinecraftString,
) -> (out: Vec<Directed>)
    requires
        old(reg).wf(),
        idx < old(reg).sessions@.len(),
        old(reg).sessions@[idx as int].state == SessionState::Unidentified,
        world.wf(),
        world.spec_x_size() <= i16::MAX,
        world.spec_y_size() <= i16::MAX,
        world.spec_z_size() <= i16::MAX,
    ensures
        final(reg).wf(),
        final(reg).sessions@.len() == old(reg).sessions@.len(),
        forall|i: int|
            0 <= i < old(reg).sessions@.len() && i != idx as int ==> final(reg).sessions@[i] == old(
                reg,
            ).sessions@[i],
        match ident {
            Err(_) => {
                &&& final(reg).sessions@[idx as int].state == SessionState::Closed
                &&& final(reg).counter == old(reg).counter
                &&& out@.len() == 0
            },
            Ok(p) => {
                if old(reg).counter.next_id == i8::MAX {
                    &&& final(reg).sessions@[idx as int].state == SessionState::Closed
                    &&& final(reg).counter == old(reg).counter
                    &&& out@.len() == 0
                } else {
                    &&& final(reg).sessions@[idx as int] == (Session {
                        id: old(reg).counter.next_id,
                        name: p.username,
                        position: spec_zero_position(),
                        state: SessionState::Active,
                    })
                    &&& final(reg).counter.next_id == old(reg).counter.next_id + 1
                    &&& identify_transcript(
                        old(reg).sessions@,
                        idx as int,
                        old(reg).counter.next_id,
                        p.username,
                        gzip_of(world.spec_payload()),
                        world.spec_x_size(),
                        world.spec_y_size(),
                        world.spec_z_size(),
                        *server_name,
                        *server_motd,
                        out@,
                    )
                }
            },
        },
{
    let ghost old_sessions = old(reg).sessions@;
    match ident {
        Err(_) => {
            let mut s = reg.sessions[idx];
            s.state = SessionState::Closed;
            reg.sessions[idx] = s;
            Vec::new()
        },
        Ok(p) => {
            if reg.counter.next_id == i8::MAX {
                let mut s = reg.sessions[idx];
                s.state = SessionState::Closed;
                reg.sessions[idx] = s;
                return Vec::new();
            }
            let new_id = reg.counter.next_id;
            let ghost gz = gzip_of(world.spec_payload());
            let mut out: Vec<Directed> = Vec::new();
            out.push(
                Directed {
                    recipient: idx,
                    packet: S2cPacket::Handshake(
                        S2cHandshake::new(0x07, *server_name, *server_motd, 0x00),
                    ),
                },
            );
            out.push(
                Directed { recipient: idx, packet: S2cPacket::LevelInitialize(S2cLevelInitialize {}) },
            );
            let frames = world.into_byte_array();
            let nf = frames.len();
            let mut f: usize = 0;
            while f < nf
                invariant
                    f <= nf,
                    out@.len() == 2 + f,
                    forall|ff: int|
                        0 <= ff < f ==> (#[trigger] out@[2 + ff]).recipient == idx
                            && chunk_packet_is(out@[2 + ff].packet, gz, ff, nf as int),
                    out@[0].recipient == idx,
                    out@[0].packet matches S2cPacket::Handshake(h) && h == (S2cHandshake {
                        protocol_version: 0x07,
                        server_name: *server_name,
                        server_motd: *server_motd,
                        user_type: 0x00,
                    }),
                    out@[1].recipient == idx,
                    out@[1].packet matches S2cPacket::LevelInitialize(_),
                decreases nf - f,
            {
                let (data, flen) = frames[f];
                let percent = chunk_percent(f, nf);
                out.push(
                    Directed {
                        recipient: idx,
                        packet: S2cPacket::LevelDataChunk(
                            S2cLevelDataChunk::new(flen as i16, data, percent),
                        ),
                    },
                );
                f += 1;
            }
            out.push(
                Directed {
                    recipient: idx,
                    packet: S2cPacket::LevelFinalize(
                        S2cLevelFinalize::new(
                            world.x_size() as i16,
                            world.y_size() as i16,
                            world.z_size() as i16,
                        ),
                    ),
                },
            );
            let mut s = reg.sessions[idx];
            s.id = new_id;
            s.name = p.username;
            s.position = Position {
                x: Coordinate::zero(),
                y: Coordinate::zero(),
                z: Coordinate::zero(),
            };
            s.state = SessionState::Active;
            reg.sessions[idx] = s;
            reg.counter.next_id = new_id + 1;
            let base = out.len();
            let ghost pre = out@;
            proof {
                assert(pre[0].recipient == idx);
                assert(pre[0].packet matches S2cPacket::Handshake(h) && h == (S2cHandshake {
                    protocol_version: 0x07,
                    server_name: *server_name,
                    server_motd: *server_motd,
                    user_type: 0x00,
                }));
                assert(pre[1].recipient == idx);
                assert(pre[1].packet matches S2cPacket::LevelInitialize(_));
                assert(forall|ff: int|
                    0 <= ff < nf ==> (#[trigger] pre[2 + ff]).recipient == idx && chunk_packet_is(
                        pre[2 + ff].packet,
                        gz,
                        ff,
                        nf as int,
                    ));
                assert(pre[2 + nf as int].recipient == idx);
                assert(pre[2 + nf as int].packet matches S2cPacket::LevelFinalize(fin) && fin == (
                S2cLevelFinalize {
                    x_size: world.spec_x_size() as i16,
                    y_size: world.spec_y_size() as i16,
                    z_size: world.spec_z_size() as i16,
                }));
            }
            let mut j: usize = 0;
            while j < reg.sessions.len()
                invariant
                    j <= reg.sessions@.len(),
                    base == 3 + nf,
                    out@.len() == base + 2 * active_indices(old_sessions.take(j as int)).len(),
                    out@.take(base as int) == pre,
                    spawn_section(
                        old_sessions,
                        idx as int,
                        new_id,
                        p.username,
                        base as int,
                        out@,
                        active_indices(old_sessions.take(j as int)),
                    ),
                decreases reg.sessions@.len() - j,
            {
                proof {
                    lemma_active_indices_step(old_sessions, j as int);
                }
                if j != idx {
                    let sj = reg.sessions[j];
                    if sj.state == SessionState::Active {
                        let ghost before = out@;
                        out.push(
                            Directed {
                                recipient: j,
                                packet: S2cPacket::SpawnPlayer(
                                    S2cSpawnPlayer::new(
                                        new_id,
                                        p.username,
                                        Coordinate::zero(),
                                        Coordinate::zero(),
                                        Coordinate::zero(),
                                        0,
                                        0,
                                    ),
                                ),
                            },
                        );
                        out.push(
                            Directed {
                                recipient: idx,
                                packet: S2cPacket::SpawnPlayer(
                                    S2cSpawnPlayer::new(
                                        sj.id,
                                        sj.name,
                                        sj.position.x,
                                        sj.position.y,
                                        sj.position.z,
                                        0,
                                        0,
                                    ),
                                ),
                            },
                        );
                        proof {
                            assert(out@.take(base as int) =~= before.take(base as int));
                        }
                    }
                }
                j += 1;
            }
            proof {
                assert(old_sessions.take(old_sessions.len() as int) =~= old_sessions);
                assert forall|i: int| 0 <= i < base implies out@[i] == pre[i] by {
                    assert(out@.take(base as int)[i] == out@[i]);
                }
                let act = active_indices(old_sessions);
                let nfs = spec_frame_count(gz.len() as int);
                assert(nf as int == nfs);
                assert(out@.len() == 3 + nfs + 2 * act.len());
                assert(out@[0].recipient == idx);
                assert(out@[0].packet matches S2cPacket::Handshake(h) && h == (S2cHandshake {
                    protocol_version: 0x07,
                    server_name: *server_name,
                    server_motd: *server_motd,
                    user_type: 0x00,
                }));
                assert(out@[1].recipient == idx);
                assert(out@[1].packet matches S2cPacket::LevelInitialize(_));
                assert forall|f: int|
                    0 <= f < nfs implies (#[trigger] out@[2 + f]).recipient == idx
                        && chunk_packet_is(out@[2 + f].packet, gz, f, nfs) by {
                    assert(out@[2 + f] == pre[2 + f]);
                    assert(pre[2 + f].recipient == idx && chunk_packet_is(
                        pre[2 + f].packet,
                        gz,
                        f,
                        nf as int,
                    ));
                }
                assert(out@[2 + nfs].recipient == idx);
                assert(out@[2 + nfs].packet matches S2cPacket::LevelFinalize(fin) && fin == (
                S2cLevelFinalize {
                    x_size: world.spec_x_size() as i16,
                    y_size: world.spec_y_size() as i16,
                    z_size: world.spec_z_size() as i16,
                }));
                assert(spawn_section(
                    old_sessions,
                    idx as int,
                    new_id,
                    p.username,
                    (3 + nfs) as int,
                    out@,
                    act,
                ));
            }
            out
        },
    }
}

/// Advances one active session by one tick: nothing waiting changes nothing;
/// a chat packet is delivered to every active session, the sender seeing the
/// self-echo id; an unknown packet id is ignored; a truncated chat packet or
/// a lost connection closes the session. No other session ever changes.
#[verifier::rlimit(80)]
#[verifier::loop_isolation(false)]
pub fn handle_active_packet(reg: &mut Registry, idx: usize, event: ClientEvent) -> (out: Vec<
    Directed,
>)
    requires
        old(reg).wf(),
        idx < old(reg).sessions@.len(),
        old(reg).sessions@[idx as int].state == SessionState::Active,
    ensures
        final(reg).wf(),
        final(reg).sessions@.len() == old(reg).sessions@.len(),
        final(reg).counter == old(reg).counter,
        forall|i: int|
            0 <= i < old(reg).sessions@.len() && i != idx as int ==> final(reg).sessions@[i] == old(
                reg,
            ).sessions@[i],
        match event {
            ClientEvent::NoData => *final(reg) == *old(reg) && out@.len() == 0,
            ClientEvent::ConnectionLost => {
                &&& final(reg).sessions@[idx as int].state == SessionState::Closed
                &&& out@.len() == 0
            },
            ClientEvent::Packet { bytes } => {
                if bytes@.len() >= 1 && bytes@[0] == 0x0d {
                    if bytes@.len() >= 66 {
                        &&& *final(reg) == *old(reg)
                        &&& chat_transcript(
                            old(reg).sessions@,
                            idx as int,
                            old(reg).sessions@[idx as int].id,
                            bytes@.subrange(2, 66),
                            out@,
                        )
                    } else {
                        &&& final(reg).sessions@[idx as int].state == SessionState::Closed
                        &&& out@.len() == 0
                    }
                } else {
                    *final(reg) == *old(reg) && out@.len() == 0
                }
            },
        },
{
    match event {
        ClientEvent::NoData => Vec::new(),
        ClientEvent::ConnectionLost => {
            let mut s = reg.sessions[idx];
            s.state = SessionState::Closed;
            reg.sessions[idx] = s;
            Vec::new()
        },
        ClientEvent::Packet { bytes } => {
            if bytes.len() == 0 {
                return Vec::new();
            }
            if bytes[0] != 0x0d {
                return Vec::new();
            }
            match C2sMessage::decode(bytes.as_slice()) {
                Err(_) => {
                    let mut s = reg.sessions[idx];
                    s.state = SessionState::Closed;
                    reg.sessions[idx] = s;
                    Vec::new()
                },
                Ok(msg) => {
                    let ghost sessions = reg.sessions@;
                    let sender_id = reg.sessions[idx].id;
                    let mut out: Vec<Directed> = Vec::new();
                    let mut j: usize = 0;
                    while j < reg.sessions.len()
                        invariant
                            j <= reg.sessions@.len(),
                            out@.len() == active_indices(sessions.take(j as int)).len(),
                            chat_transcript(
                                sessions.take(j as int),
                                idx as int,
                                sender_id,
                                msg.message@,
                                out@,
                            ),
                        decreases reg.sessions@.len() - j,
                    {
                        proof {
                            lemma_active_indices_step(sessions, j as int);
                        }
                        let sj = reg.sessions[j];
                        if sj.state == SessionState::Active {
                            let pid: i8 = if j == idx {
                                -1
                            } else {
                                sender_id
                            };
                            out.push(
                                Directed {
                                    recipient: j,
                                    packet: S2cPacket::Message(S2cMessage::new(pid, msg.message)),
                                },
                            );
                        }
                        proof {
                            assert(sessions.take(j + 1).take(j as int) =~= sessions.take(j as int));
                        }
                        j += 1;
                    }
                    proof {
                        assert(sessions.take(sessions.len() as int) =~= sessions);
                    }
                    out
                },
            }
        },
    }
}

/// Spawn visibility, both directions: the identification transcript tells
/// every session that was active about the new player, and tells the new
/// player about every such session.
pub proof fn lemma_spawn_visibility(
    sessions: Seq<Session>,
    idx: int,
    new_id: i8,
    new_name: MinecraftString,
    gz: Seq<u8>,
    xs: u16,
    ys: u16,
    zs: u16,
    server_name: MinecraftString,
    server_motd: MinecraftString,
    out: Seq<Directed>,
    j: int,
)
    requires
        identify_transcript(
            sessions,
            idx,
            new_id,
            new_name,
            gz,
            xs,
            ys,
            zs,
            server_name,
            server_motd,
            out,
        ),
        0 <= j < sessions.len(),
        sessions[j].state == SessionState::Active,
    ensures
        exists|t: int|
            0 <= t < out.len() && (#[trigger] out[t]).recipient == j && spawn_packet_is(
                out[t].packet,
                new_id,
                new_name,
                spec_zero_position(),
            ),
        exists|t: int|
            0 <= t < out.len() && (#[trigger] out[t]).recipient == idx && spawn_packet_is(
                out[t].packet,
                sessions[j].id,
                sessions[j].name,
                sessions[j].position,
            ),
{
    lemma_active_indices_complete(sessions, j);
    let act = active_indices(sessions);
    let m = choose|m: int| 0 <= m < act.len() && act[m] == j;
    let base = 3 + spec_frame_count(gz.len() as int);
    vstd::arithmetic::div_mod::lemma_div_is_ordered(0, gz.len() as int + 1023, 1024);
    assert(out[base + 2 * m].recipient == j && spawn_packet_is(
        out[base + 2 * m].packet,
        new_id,
        new_name,
        spec_zero_position(),
    ));
    assert(out[base + 2 * m + 1].recipient == idx && spawn_packet_is(
        out[base + 2 * m + 1].packet,
        sessions[j].id,
        sessions[j].name,
        sessions[j].position,
    ));
}

/// Chat delivery and self-echo: the chat transcript hands every active
/// session the message, under the sender's id — except the sender itself,
/// which sees the id `-1`.
pub proof fn lemma_chat_delivery(
    sessions: Seq<Session>,
    sender: int,
    sender_id: i8,
    text: Seq<u8>,
    out: Seq<Directed>,
    j: int,
)
    requires
        chat_transcript(sessions, sender, sender_id, text, out),
        0 <= j < sessions.len(),
        sessions[j].state == SessionState::Active,
    ensures
        exists|t: int|
            0 <= t < out.len() && (#[trigger] out[t]).recipient == j && message_packet_is(
                out[t].packet,
                if j == sender {
                    -1 as i8
                } else {
                    sender_id
                },
                text,
            ),
{
    lemma_active_indices_complete(sessions, j);
    let act = active_indices(sessions);
    let m = choose|m: int| 0 <= m < act.len() && act[m] == j;
    assert(out[m].recipient == j && message_packet_is(
        out[m].packet,
        if j == sender {
            -1 as i8
        } else {
            sender_id
        },
        text,
    ));
}

} // verus!
