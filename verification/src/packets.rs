//! The binary packet codec: every client-to-server and server-to-client
//! message of the protocol, its exact field layout on the wire, and the
//! functions that read and write it. All multi-byte integers are big-endian;
//! all strings use the fixed 64-byte padded format.
use vstd::prelude::*;

use crate::fixed_string::MinecraftString;
use crate::fixed_string::lemma_mcstring_view_injective;
use crate::fixed_string::lemma_mcstring_len;

verus! {

broadcast use lemma_mcstring_len;

/// How decoding a packet can fail: the leading byte names a different packet,
/// or the stream ended before the packet's fixed byte count was read.
#[derive(Clone, Copy, Debug, PartialEq, Eq, Structural)]
pub enum ProtocolError {
    UnexpectedPacketId { expected: u8, got: u8 },
    TruncatedPacket,
}

/// A world position: signed 16-bit fixed-point with 5 fractional bits, so one
/// unit is 1/32 of a block. `bits` is the raw bit pattern; the wire carries it
/// as a big-endian 16-bit integer.
#[derive(Clone, Copy, Debug, PartialEq, Eq, Structural)]
pub struct Coordinate {
    pub bits: i16,
}

impl Coordinate {
    /// The origin: zero blocks, zero fraction.
    pub fn zero() -> (r: Self)
        ensures
            r.bits == 0,
    {
        Coordinate { bits: 0 }
    }

    /// The position a whole number of blocks from the origin.
    pub fn from_blocks(blocks: i16) -> (r: Self)
        requires
            -1024 <= blocks < 1024,
        ensures
            r.bits == blocks * 32,
    {
        Coordinate { bits: blocks * 32 }
    }
}

/// The two big-endian bytes of a 16-bit value.
pub open spec fn spec_i16_be(v: i16) -> Seq<u8> {
    seq![((v as u16) >> 8) as u8, ((v as u16) & 0xff) as u8]
}

/// The 16-bit value read from two big-endian bytes.
pub open spec fn spec_i16_from_be(hi: u8, lo: u8) -> i16 {
    ((((hi as u16) << 8) | (lo as u16)) as i16)
}

/// Writing a 16-bit value big-endian and reading it back returns the value.
pub proof fn lemma_i16_be_round_trip(v: i16)
    ensures
        spec_i16_from_be(spec_i16_be(v)[0], spec_i16_be(v)[1]) == v,
{
    let u = v as u16;
    assert((((((u >> 8) as u8) as u16) << 8) | (((u & 0xff) as u8) as u16)) == u) by (bit_vector);
    assert((v as u16) as i16 == v) by (bit_vector);
}

/// Appends the two big-endian bytes of `v`.
fn push_i16_be(out: &mut Vec<u8>, v: i16)
    ensures
        final(out)@ == old(out)@ + spec_i16_be(v),
{
    let u = v as u16;
    proof {
        assert((u >> 8) < 256) by (bit_vector);
        assert((u & 0xff) < 256) by (bit_vector);
    }
    out.push((u >> 8) as u8);
    out.push(((u & 0xff) as u8));
    proof {
        assert(out@ =~= old(out)@ + spec_i16_be(v));
    }
}

/// Reads the 16-bit big-endian value at `off`.
fn read_i16_be(buf: &[u8], off: usize) -> (r: i16)
    requires
        off + 2 <= buf@.len(),
    ensures
        r == spec_i16_from_be(buf@[off as int], buf@[off + 1]),
{
    let hi = buf[off];
    let lo = buf[off + 1];
    let u: u16 = ((hi as u16) << 8) | (lo as u16);
    #[verifier::truncate]
    (u as i16)
}

/// Appends the 64 wire bytes of a fixed string.
fn push_mcstring(out: &mut Vec<u8>, s: &MinecraftString)
    ensures
        final(out)@ == old(out)@ + s@,
{
    out.extend_from_slice(s.wire_bytes());
}

/// Reads the 64-byte fixed string at `off`.
fn read_mcstring(buf: &[u8], off: usize) -> (r: MinecraftString)
    requires
        off + 64 <= buf@.len(),
    ensures
        r@ == buf@.subrange(off as int, off + 64),
{
    let n = buf.len();
    let mut arr: [u8; 64] = [0; 64];
    let mut i: usize = 0;
    while i < 64
        invariant
            i <= 64,
            off + 64 <= n == buf@.len(),
            forall|k: int| 0 <= k < i ==> arr@[k] == buf@[off + k],
        decreases 64 - i,
    {
        arr[i] = buf[off + i];
        i += 1;
    }
    proof {
        assert(arr@ =~= buf@.subrange(off as int, off + 64));
    }
    MinecraftString::from_wire(arr)
}

/// Reads the byte at `off` as a signed value.
fn read_i8(buf: &[u8], off: usize) -> (r: i8)
    requires
        off < buf@.len(),
    ensures
        r == buf@[off as int] as i8,
{
    #[verifier::truncate]
    (buf[off] as i8)
}

/// Reads the 1024 payload bytes of a level-data chunk at `off`.
fn read_chunk_data(buf: &[u8], off: usize) -> (r: [u8; 1024])
    requires
        off + 1024 <= buf@.len(),
    ensures
        r@ == buf@.subrange(off as int, off + 1024),
{
    let n = buf.len();
    let mut arr: [u8; 1024] = [0; 1024];
    let mut i: usize = 0;
    while i < 1024
        invariant
            i <= 1024,
            off + 1024 <= n == buf@.len(),
            forall|k: int| 0 <= k < i ==> arr@[k] == buf@[off + k],
        decreases 1024 - i,
    {
        arr[i] = buf[off + i];
        i += 1;
    }
    proof {
        assert(arr@ =~= buf@.subrange(off as int, off + 1024));
    }
    arr
}

/// First packet a client sends (packet id 0x00): protocol version, username,
/// and a verification key the server accepts unchecked.
#[derive(Debug, PartialEq)]
pub struct C2sPlayerIdentification {
    pub protocol_version: u8,
    pub username: MinecraftString,
    pub verification_key: MinecraftString,
}

impl C2sPlayerIdentification {
    /// Wire id of this packet.
    pub open spec fn packet_id() -> u8 {
        0x00
    }

    /// Total wire size: id, version, two 64-byte strings.
    pub open spec fn wire_len() -> int {
        130
    }

    /// The exact wire bytes of this packet.
    pub open spec fn spec_encode(self) -> Seq<u8> {
        seq![0x00u8, self.protocol_version] + self.username@ + self.verification_key@
    }

    /// What decoding promises of a returned packet.
    pub open spec fn decoded_from(self, buf: Seq<u8>) -> bool {
        &&& buf.len() >= 130
        &&& buf[0] == 0x00
        &&& self.protocol_version == buf[1]
        &&& self.username@ == buf.subrange(2, 66)
        &&& self.verification_key@ == buf.subrange(66, 130)
    }

    /// Writes the packet: id byte, then the fields in order.
    pub fn encode(&self) -> (r: Vec<u8>)
        ensures
            r@ == self.spec_encode(),
    {
        let mut out: Vec<u8> = Vec::new();
        out.push(0x00);
        out.push(self.protocol_version);
        push_mcstring(&mut out, &self.username);
        push_mcstring(&mut out, &self.verification_key);
        proof {
            assert(out@ =~= self.spec_encode());
        }
        out
    }

    /// Reads the packet from the front of `buf`, consuming exactly
    /// `wire_len` bytes.
    pub fn decode(buf: &[u8]) -> (r: Result<Self, ProtocolError>)
        ensures
            match r {
                Ok(p) => p.decoded_from(buf@),
                Err(ProtocolError::UnexpectedPacketId { expected, got }) => {
                    &&& buf@.len() > 0
                    &&& buf@[0] != 0x00
                    &&& expected == 0x00
                    &&& got == buf@[0]
                },
                Err(ProtocolError::TruncatedPacket) => buf@.len() < 130 && (buf@.len() == 0
                    || buf@[0] == 0x00),
            },
    {
        if buf.len() == 0 {
            return Err(ProtocolError::TruncatedPacket);
        }
        if buf[0] != 0x00 {
            return Err(ProtocolError::UnexpectedPacketId { expected: 0x00, got: buf[0] });
        }
        if buf.len() < 130 {
            return Err(ProtocolError::TruncatedPacket);
        }
        let protocol_version = buf[1];
        let username = read_mcstring(buf, 2);
        let verification_key = read_mcstring(buf, 66);
        Ok(C2sPlayerIdentification { protocol_version, username, verification_key })
    }
}

/// Round trip: whatever decoding accepts out of the encoding of `p` is `p`.
pub proof fn lemma_c2s_player_identification_round_trip(
    p: C2sPlayerIdentification,
    q: C2sPlayerIdentification,
)
    requires
        q.decoded_from(p.spec_encode()),
    ensures
        q == p,
{
    let bytes = p.spec_encode();
    assert(bytes.subrange(2, 66) =~= p.username@);
    assert(bytes.subrange(66, 130) =~= p.verification_key@);
    lemma_mcstring_view_injective(q.username, p.username);
    lemma_mcstring_view_injective(q.verification_key, p.verification_key);
}

/// Chat message sent by a client (packet id 0x0d): the sender's id and the text.
#[derive(Debug, PartialEq)]
pub struct C2sMessage {
    pub player_id: i8,
    pub message: MinecraftString,
}

impl C2sMessage {
    /// Wire id of this packet.
    pub open spec fn packet_id() -> u8 {
        0x0d
    }

    /// Total wire size: id, player id, 64 text bytes.
    pub open spec fn wire_len() -> int {
        66
    }

    /// The exact wire bytes of this packet.
    pub open spec fn spec_encode(self) -> Seq<u8> {
        seq![0x0du8, self.player_id as u8] + self.message@
    }

    /// What decoding promises of a returned packet: it was read field by
    /// field from the first `wire_len` bytes of `buf`.
    pub open spec fn decoded_from(self, buf: Seq<u8>) -> bool {
        &&& buf.len() >= 66
        &&& buf[0] == 0x0d
        &&& self.player_id == buf[1] as i8
        &&& self.message@ == buf.subrange(2, 66)
    }

    /// Writes the packet: id byte, then the fields in order.
    pub fn encode(&self) -> (r: Vec<u8>)
        ensures
            r@ == self.spec_encode(),
    {
        let mut out: Vec<u8> = Vec::new();
        out.push(0x0d);
        out.push(#[verifier::truncate] (self.player_id as u8));
        push_mcstring(&mut out, &self.message);
        proof {
            assert(out@ =~= self.spec_encode());
        }
        out
    }

    /// Reads the packet from the front of `buf`, consuming exactly
    /// `wire_len` bytes; trailing bytes are left for the next packet.
    pub fn decode(buf: &[u8]) -> (r: Result<Self, ProtocolError>)
        ensures
            match r {
                Ok(p) => p.decoded_from(buf@),
                Err(ProtocolError::UnexpectedPacketId { expected, got }) => {
                    &&& buf@.len() > 0
                    &&& buf@[0] != 0x0d
                    &&& expected == 0x0d
                    &&& got == buf@[0]
                },
                Err(ProtocolError::TruncatedPacket) => buf@.len() < 66 && (buf@.len() == 0
                    || buf@[0] == 0x0d),
            },
    {
        if buf.len() == 0 {
            return Err(ProtocolError::TruncatedPacket);
        }
        if buf[0] != 0x0d {
            return Err(ProtocolError::UnexpectedPacketId { expected: 0x0d, got: buf[0] });
        }
        if buf.len() < 66 {
            return Err(ProtocolError::TruncatedPacket);
        }
        let player_id = read_i8(buf, 1);
        let message = read_mcstring(buf, 2);
        Ok(C2sMessage { player_id, message })
    }
}

/// Round trip: whatever decoding accepts out of the encoding of `p` is `p`
/// itself.
pub proof fn lemma_c2s_message_round_trip(p: C2sMessage, q: C2sMessage)
    requires
        q.decoded_from(p.spec_encode()),
    ensures
        q == p,
{
    let bytes = p.spec_encode();
    assert(bytes.subrange(2, 66) =~= p.message@);
    let b = p.player_id;
    assert((b as u8) as i8 == b) by (bit_vector);
    lemma_mcstring_view_injective(q.message, p.message);
}

/// First reply of the server (packet id 0x00): protocol version, server name,
/// message of the day, and the joining user's rank.
#[derive(Debug, PartialEq)]
pub struct S2cHandshake {
    pub protocol_version: u8,
    pub server_name: MinecraftString,
    pub server_motd: MinecraftString,
    pub user_type: u8,
}

impl S2cHandshake {
    /// Wire id of this packet.
    pub open spec fn packet_id() -> u8 {
        0x00
    }

    /// Total wire size: id, version, two 64-byte strings, user type.
    pub open spec fn wire_len() -> int {
        131
    }

    /// Bundles the handshake fields.
    pub fn new(
        protocol_version: u8,
        server_name: MinecraftString,
        server_motd: MinecraftString,
        user_type: u8,
    ) -> (r: Self)
        ensures
            r == (S2cHandshake { protocol_version, server_name, server_motd, user_type }),
    {
        S2cHandshake { protocol_version, server_name, server_motd, user_type }
    }

    /// The exact wire bytes of this packet.
    pub open spec fn spec_encode(self) -> Seq<u8> {
        seq![0x00u8, self.protocol_version] + self.server_name@ + self.server_motd@ + seq![
            self.user_type,
        ]
    }

    /// What decoding promises of a returned packet.
    pub open spec fn decoded_from(self, buf: Seq<u8>) -> bool {
        &&& buf.len() >= 131
        &&& buf[0] == 0x00
        &&& self.protocol_version == buf[1]
        &&& self.server_name@ == buf.subrange(2, 66)
        &&& self.server_motd@ == buf.subrange(66, 130)
        &&& self.user_type == buf[130]
    }

    /// Writes the packet: id byte, then the fields in order.
    pub fn encode(&self) -> (r: Vec<u8>)
        ensures
            r@ == self.spec_encode(),
    {
        let mut out: Vec<u8> = Vec::new();
        out.push(0x00);
        out.push(self.protocol_version);
        push_mcstring(&mut out, &self.server_name);
        push_mcstring(&mut out, &self.server_motd);
        out.push(self.user_type);
        proof {
            assert(out@ =~= self.spec_encode());
        }
        out
    }

    /// Reads the packet from the front of `buf`, consuming exactly
    /// `wire_len` bytes.
    pub fn decode(buf: &[u8]) -> (r: Result<Self, ProtocolError>)
        ensures
            match r {
                Ok(p) => p.decoded_from(buf@),
                Err(ProtocolError::UnexpectedPacketId { expected, got }) => {
                    &&& buf@.len() > 0
                    &&& buf@[0] != 0x00
                    &&& expected == 0x00
                    &&& got == buf@[0]
                },
                Err(ProtocolError::TruncatedPacket) => buf@.len() < 131 && (buf@.len() == 0
                    || buf@[0] == 0x00),
            },
    {
        if buf.len() == 0 {
            return Err(ProtocolError::TruncatedPacket);
        }
        if buf[0] != 0x00 {
            return Err(ProtocolError::UnexpectedPacketId { expected: 0x00, got: buf[0] });
        }
        if buf.len() < 131 {
            return Err(ProtocolError::TruncatedPacket);
        }
        let protocol_version = buf[1];
        let server_name = read_mcstring(buf, 2);
        let server_motd = read_mcstring(buf, 66);
        let user_type = buf[130];
        Ok(S2cHandshake { protocol_version, server_name, server_motd, user_type })
    }
}

/// Round trip: whatever decoding accepts out of the encoding of `p` is `p`.
pub proof fn lemma_s2c_handshake_round_trip(p: S2cHandshake, q: S2cHandshake)
    requires
        q.decoded_from(p.spec_encode()),
    ensures
        q == p,
{
    let bytes = p.spec_encode();
    assert(bytes.subrange(2, 66) =~= p.server_name@);
    assert(bytes.subrange(66, 130) =~= p.server_motd@);
    lemma_mcstring_view_injective(q.server_name, p.server_name);
    lemma_mcstring_view_injective(q.server_motd, p.server_motd);
}

/// Announces the start of a level transfer (packet id 0x02); carries nothing.
#[derive(Debug, PartialEq)]
pub struct S2cLevelInitialize {}

impl S2cLevelInitialize {
    /// Wire id of this packet.
    pub open spec fn packet_id() -> u8 {
        0x02
    }

    /// Total wire size: the id byte alone.
    pub open spec fn wire_len() -> int {
        1
    }

    /// The exact wire bytes of this packet.
    pub open spec fn spec_encode(self) -> Seq<u8> {
        seq![0x02u8]
    }

    /// What decoding promises of a returned packet.
    pub open spec fn decoded_from(self, buf: Seq<u8>) -> bool {
        &&& buf.len() >= 1
        &&& buf[0] == 0x02
    }

    /// Writes the packet: the id byte alone.
    pub fn encode(&self) -> (r: Vec<u8>)
        ensures
            r@ == self.spec_encode(),
    {
        let mut out: Vec<u8> = Vec::new();
        out.push(0x02);
        proof {
            assert(out@ =~= self.spec_encode());
        }
        out
    }

    /// Reads the packet from the front of `buf`.
    pub fn decode(buf: &[u8]) -> (r: Result<Self, ProtocolError>)
        ensures
            match r {
                Ok(p) => p.decoded_from(buf@),
                Err(ProtocolError::UnexpectedPacketId { expected, got }) => {
                    &&& buf@.len() > 0
                    &&& buf@[0] != 0x02
                    &&& expected == 0x02
                    &&& got == buf@[0]
                },
                Err(ProtocolError::TruncatedPacket) => buf@.len() == 0,
            },
    {
        if buf.len() == 0 {
            return Err(ProtocolError::TruncatedPacket);
        }
        if buf[0] != 0x02 {
            return Err(ProtocolError::UnexpectedPacketId { expected: 0x02, got: buf[0] });
        }
        Ok(S2cLevelInitialize {})
    }
}

/// Round trip: whatever decoding accepts out of the encoding of `p` is `p`.
pub proof fn lemma_s2c_level_initialize_round_trip(p: S2cLevelInitialize, q: S2cLevelInitialize)
    requires
        q.decoded_from(p.spec_encode()),
    ensures
        q == p,
{
}

/// One 1024-byte frame of the compressed level snapshot (packet id 0x03):
/// the frame's true payload length, the zero-padded frame itself, and how
/// far the transfer has come, in percent.
#[derive(Clone, Debug, PartialEq)]
pub struct S2cLevelDataChunk {
    pub chunk_length: i16,
    pub chunk_data: [u8; 1024],
    pub percent_complete: u8,
}

impl S2cLevelDataChunk {
    /// Wire id of this packet.
    pub open spec fn packet_id() -> u8 {
        0x03
    }

    /// Total wire size: id, length, 1024 data bytes, percent.
    pub open spec fn wire_len() -> int {
        1028
    }

    /// Bundles one frame of the level transfer.
    pub fn new(chunk_length: i16, chunk_data: [u8; 1024], percent_complete: u8) -> (r: Self)
        ensures
            r == (S2cLevelDataChunk { chunk_length, chunk_data, percent_complete }),
    {
        S2cLevelDataChunk { chunk_length, chunk_data, percent_complete }
    }

    /// The exact wire bytes of this packet.
    pub open spec fn spec_encode(self) -> Seq<u8> {
        seq![0x03u8] + spec_i16_be(self.chunk_length) + self.chunk_data@ + seq![
            self.percent_complete,
        ]
    }

    /// What decoding promises of a returned packet.
    pub open spec fn decoded_from(self, buf: Seq<u8>) -> bool {
        &&& buf.len() >= 1028
        &&& buf[0] == 0x03
        &&& self.chunk_length == spec_i16_from_be(buf[1], buf[2])
        &&& self.chunk_data@ == buf.subrange(3, 1027)
        &&& self.percent_complete == buf[1027]
    }

    /// Writes the packet: id byte, then the fields in order.
    pub fn encode(&self) -> (r: Vec<u8>)
        ensures
            r@ == self.spec_encode(),
    {
        let mut out: Vec<u8> = Vec::new();
        out.push(0x03);
        push_i16_be(&mut out, self.chunk_length);
        out.extend_from_slice(self.chunk_data.as_slice());
        out.push(self.percent_complete);
        proof {
            assert(out@ =~= self.spec_encode());
        }
        out
    }

    /// Reads the packet from the front of `buf`, consuming exactly
    /// `wire_len` bytes.
    pub fn decode(buf: &[u8]) -> (r: Result<Self, ProtocolError>)
        ensures
            match r {
                Ok(p) => p.decoded_from(buf@),
                Err(ProtocolError::UnexpectedPacketId { expected, got }) => {
                    &&& buf@.len() > 0
                    &&& buf@[0] != 0x03
                    &&& expected == 0x03
                    &&& got == buf@[0]
                },
                Err(ProtocolError::TruncatedPacket) => buf@.len() < 1028 && (buf@.len() == 0
                    || buf@[0] == 0x03),
            },
    {
        if buf.len() == 0 {
            return Err(ProtocolError::TruncatedPacket);
        }
        if buf[0] != 0x03 {
            return Err(ProtocolError::UnexpectedPacketId { expected: 0x03, got: buf[0] });
        }
        if buf.len() < 1028 {
            return Err(ProtocolError::TruncatedPacket);
        }
        let chunk_length = read_i16_be(buf, 1);
        let chunk_data = read_chunk_data(buf, 3);
        let percent_complete = buf[1027];
        Ok(S2cLevelDataChunk { chunk_length, chunk_data, percent_complete })
    }
}

/// Round trip: whatever decoding accepts out of the encoding of `p` is `p`.
pub proof fn lemma_s2c_level_data_chunk_round_trip(p: S2cLevelDataChunk, q: S2cLevelDataChunk)
    requires
        q.decoded_from(p.spec_encode()),
    ensures
        q == p,
{
    let bytes = p.spec_encode();
    assert(bytes[1] == spec_i16_be(p.chunk_length)[0]);
    assert(bytes[2] == spec_i16_be(p.chunk_length)[1]);
    lemma_i16_be_round_trip(p.chunk_length);
    assert(bytes.subrange(3, 1027) =~= p.chunk_data@);
    assert(q.chunk_data@ =~= p.chunk_data@);
    assert(q.chunk_data =~= p.chunk_data);
}

/// Closes the level transfer (packet id 0x04) and names the world's
/// dimensions.
#[derive(Clone, Debug, PartialEq)]
pub struct S2cLevelFinalize {
    pub x_size: i16,
    pub y_size: i16,
    pub z_size: i16,
}

impl S2cLevelFinalize {
    /// Wire id of this packet.
    pub open spec fn packet_id() -> u8 {
        0x04
    }

    /// Total wire size: id and three 16-bit dimensions.
    pub open spec fn wire_len() -> int {
        7
    }

    /// Bundles the world dimensions.
    pub fn new(x_size: i16, y_size: i16, z_size: i16) -> (r: Self)
        ensures
            r == (S2cLevelFinalize { x_size, y_size, z_size }),
    {
        S2cLevelFinalize { x_size, y_size, z_size }
    }

    /// The exact wire bytes of this packet.
    pub open spec fn spec_encode(self) -> Seq<u8> {
        seq![0x04u8] + spec_i16_be(self.x_size) + spec_i16_be(self.y_size) + spec_i16_be(
            self.z_size,
        )
    }

    /// What decoding promises of a returned packet.
    pub open spec fn decoded_from(self, buf: Seq<u8>) -> bool {
        &&& buf.len() >= 7
        &&& buf[0] == 0x04
        &&& self.x_size == spec_i16_from_be(buf[1], buf[2])
        &&& self.y_size == spec_i16_from_be(buf[3], buf[4])
        &&& self.z_size == spec_i16_from_be(buf[5], buf[6])
    }

    /// Writes the packet: id byte, then the fields in order.
    pub fn encode(&self) -> (r: Vec<u8>)
        ensures
            r@ == self.spec_encode(),
    {
        let mut out: Vec<u8> = Vec::new();
        out.push(0x04);
        push_i16_be(&mut out, self.x_size);
        push_i16_be(&mut out, self.y_size);
        push_i16_be(&mut out, self.z_size);
        proof {
            assert(out@ =~= self.spec_encode());
        }
        out
    }

    /// Reads the packet from the front of `buf`, consuming exactly
    /// `wire_len` bytes.
    pub fn decode(buf: &[u8]) -> (r: Result<Self, ProtocolError>)
        ensures
            match r {
                Ok(p) => p.decoded_from(buf@),
                Err(ProtocolError::UnexpectedPacketId { expected, got }) => {
                    &&& buf@.len() > 0
                    &&& buf@[0] != 0x04
                    &&& expected == 0x04
                    &&& got == buf@[0]
                },
                Err(ProtocolError::TruncatedPacket) => buf@.len() < 7 && (buf@.len() == 0
                    || buf@[0] == 0x04),
            },
    {
        if buf.len() == 0 {
            return Err(ProtocolError::TruncatedPacket);
        }
        if buf[0] != 0x04 {
            return Err(ProtocolError::UnexpectedPacketId { expected: 0x04, got: buf[0] });
        }
        if buf.len() < 7 {
            return Err(ProtocolError::TruncatedPacket);
        }
        let x_size = read_i16_be(buf, 1);
        let y_size = read_i16_be(buf, 3);
        let z_size = read_i16_be(buf, 5);
        Ok(S2cLevelFinalize { x_size, y_size, z_size })
    }
}

/// Round trip: whatever decoding accepts out of the encoding of `p` is `p`.
pub proof fn lemma_s2c_level_finalize_round_trip(p: S2cLevelFinalize, q: S2cLevelFinalize)
    requires
        q.decoded_from(p.spec_encode()),
    ensures
        q == p,
{
    let bytes = p.spec_encode();
    assert(bytes[1] == spec_i16_be(p.x_size)[0]);
    assert(bytes[2] == spec_i16_be(p.x_size)[1]);
    assert(bytes[3] == spec_i16_be(p.y_size)[0]);
    assert(bytes[4] == spec_i16_be(p.y_size)[1]);
    assert(bytes[5] == spec_i16_be(p.z_size)[0]);
    assert(bytes[6] == spec_i16_be(p.z_size)[1]);
    lemma_i16_be_round_trip(p.x_size);
    lemma_i16_be_round_trip(p.y_size);
    lemma_i16_be_round_trip(p.z_size);
}

/// Chat message delivered to a client (packet id 0x06): the sender's id as
/// the recipient should see it, and the text.
#[derive(Debug, PartialEq)]
pub struct S2cMessage {
    pub player_id: i8,
    pub message: MinecraftString,
}

impl S2cMessage {
    /// Wire id of this packet.
    pub open spec fn packet_id() -> u8 {
        0x06
    }

    /// Total wire size: id, player id, 64 text bytes.
    pub open spec fn wire_len() -> int {
        66
    }

    /// Bundles a delivered chat line.
    pub fn new(player_id: i8, message: MinecraftString) -> (r: Self)
        ensures
            r == (S2cMessage { player_id, message }),
    {
        S2cMessage { player_id, message }
    }

    /// The exact wire bytes of this packet.
    pub open spec fn spec_encode(self) -> Seq<u8> {
        seq![0x06u8, self.player_id as u8] + self.message@
    }

    /// What decoding promises of a returned packet.
    pub open spec fn decoded_from(self, buf: Seq<u8>) -> bool {
        &&& buf.len() >= 66
        &&& buf[0] == 0x06
        &&& self.player_id == buf[1] as i8
        &&& self.message@ == buf.subrange(2, 66)
    }

    /// Writes the packet: id byte, then the fields in order.
    pub fn encode(&self) -> (r: Vec<u8>)
        ensures
            r@ == self.spec_encode(),
    {
        let mut out: Vec<u8> = Vec::new();
        out.push(0x06);
        out.push(#[verifier::truncate] (self.player_id as u8));
        push_mcstring(&mut out, &self.message);
        proof {
            assert(out@ =~= self.spec_encode());
        }
        out
    }

    /// Reads the packet from the front of `buf`, consuming exactly
    /// `wire_len` bytes.
    pub fn decode(buf: &[u8]) -> (r: Result<Self, ProtocolError>)
        ensures
            match r {
                Ok(p) => p.decoded_from(buf@),
                Err(ProtocolError::UnexpectedPacketId { expected, got }) => {
                    &&& buf@.len() > 0
                    &&& buf@[0] != 0x06
                    &&& expected == 0x06
                    &&& got == buf@[0]
                },
                Err(ProtocolError::TruncatedPacket) => buf@.len() < 66 && (buf@.len() == 0
                    || buf@[0] == 0x06),
            },
    {
        if buf.len() == 0 {
            return Err(ProtocolError::TruncatedPacket);
        }
        if buf[0] != 0x06 {
            return Err(ProtocolError::UnexpectedPacketId { expected: 0x06, got: buf[0] });
        }
        if buf.len() < 66 {
            return Err(ProtocolError::TruncatedPacket);
        }
        let player_id = read_i8(buf, 1);
        let message = read_mcstring(buf, 2);
        Ok(S2cMessage { player_id, message })
    }
}

/// Round trip: whatever decoding accepts out of the encoding of `p` is `p`.
pub proof fn lemma_s2c_message_round_trip(p: S2cMessage, q: S2cMessage)
    requires
        q.decoded_from(p.spec_encode()),
    ensures
        q == p,
{
    let bytes = p.spec_encode();
    assert(bytes.subrange(2, 66) =~= p.message@);
    let b = p.player_id;
    assert((b as u8) as i8 == b) by (bit_vector);
    lemma_mcstring_view_injective(q.message, p.message);
}

/// Tells a client that a player stands in the world (packet id 0x07): id,
/// name, fixed-point position, and view angles.
#[derive(Debug, PartialEq)]
pub struct S2cSpawnPlayer {
    pub player_id: i8,
    pub player_name: MinecraftString,
    pub x: Coordinate,
    pub y: Coordinate,
    pub z: Coordinate,
    pub yaw: u8,
    pub pitch: u8,
}

impl S2cSpawnPlayer {
    /// Wire id of this packet.
    pub open spec fn packet_id() -> u8 {
        0x07
    }

    /// Total wire size: id, player id, name, three coordinates, two angles.
    pub open spec fn wire_len() -> int {
        74
    }

    /// Bundles a spawn announcement.
    pub fn new(
        player_id: i8,
        player_name: MinecraftString,
        x: Coordinate,
        y: Coordinate,
        z: Coordinate,
        yaw: u8,
        pitch: u8,
    ) -> (r: Self)
        ensures
            r == (S2cSpawnPlayer { player_id, player_name, x, y, z, yaw, pitch }),
    {
        S2cSpawnPlayer { player_id, player_name, x, y, z, yaw, pitch }
    }

    /// The exact wire bytes of this packet.
    pub open spec fn spec_encode(self) -> Seq<u8> {
        seq![0x07u8, self.player_id as u8] + self.player_name@ + spec_i16_be(self.x.bits)
            + spec_i16_be(self.y.bits) + spec_i16_be(self.z.bits) + seq![self.yaw, self.pitch]
    }

    /// What decoding promises of a returned packet.
    pub open spec fn decoded_from(self, buf: Seq<u8>) -> bool {
        &&& buf.len() >= 74
        &&& buf[0] == 0x07
        &&& self.player_id == buf[1] as i8
        &&& self.player_name@ == buf.subrange(2, 66)
        &&& self.x.bits == spec_i16_from_be(buf[66], buf[67])
        &&& self.y.bits == spec_i16_from_be(buf[68], buf[69])
        &&& self.z.bits == spec_i16_from_be(buf[70], buf[71])
        &&& self.yaw == buf[72]
        &&& self.pitch == buf[73]
    }

    /// Writes the packet: id byte, then the fields in order.
    pub fn encode(&self) -> (r: Vec<u8>)
        ensures
            r@ == self.spec_encode(),
    {
        let mut out: Vec<u8> = Vec::new();
        out.push(0x07);
        out.push(#[verifier::truncate] (self.player_id as u8));
        push_mcstring(&mut out, &self.player_name);
        push_i16_be(&mut out, self.x.bits);
        push_i16_be(&mut out, self.y.bits);
        push_i16_be(&mut out, self.z.bits);
        out.push(self.yaw);
        out.push(self.pitch);
        proof {
            assert(out@ =~= self.spec_encode());
        }
        out
    }

    /// Reads the packet from the front of `buf`, consuming exactly
    /// `wire_len` bytes.
    pub fn decode(buf: &[u8]) -> (r: Result<Self, ProtocolError>)
        ensures
            match r {
                Ok(p) => p.decoded_from(buf@),
                Err(ProtocolError::UnexpectedPacketId { expected, got }) => {
                    &&& buf@.len() > 0
                    &&& buf@[0] != 0x07
                    &&& expected == 0x07
                    &&& got == buf@[0]
                },
                Err(ProtocolError::TruncatedPacket) => buf@.len() < 74 && (buf@.len() == 0
                    || buf@[0] == 0x07),
            },
    {
        if buf.len() == 0 {
            return Err(ProtocolError::TruncatedPacket);
        }
        if buf[0] != 0x07 {
            return Err(ProtocolError::UnexpectedPacketId { expected: 0x07, got: buf[0] });
        }
        if buf.len() < 74 {
            return Err(ProtocolError::TruncatedPacket);
        }
        let player_id = read_i8(buf, 1);
        let player_name = read_mcstring(buf, 2);
        let x = Coordinate { bits: read_i16_be(buf, 66) };
        let y = Coordinate { bits: read_i16_be(buf, 68) };
        let z = Coordinate { bits: read_i16_be(buf, 70) };
        let yaw = buf[72];
        let pitch = buf[73];
        Ok(S2cSpawnPlayer { player_id, player_name, x, y, z, yaw, pitch })
    }
}

/// Round trip: whatever decoding accepts out of the encoding of `p` is `p`.
pub proof fn lemma_s2c_spawn_player_round_trip(p: S2cSpawnPlayer, q: S2cSpawnPlayer)
    requires
        q.decoded_from(p.spec_encode()),
    ensures
        q == p,
{
    let bytes = p.spec_encode();
    assert(bytes.subrange(2, 66) =~= p.player_name@);
    assert(bytes[66] == spec_i16_be(p.x.bits)[0]);
    assert(bytes[67] == spec_i16_be(p.x.bits)[1]);
    assert(bytes[68] == spec_i16_be(p.y.bits)[0]);
    assert(bytes[69] == spec_i16_be(p.y.bits)[1]);
    assert(bytes[70] == spec_i16_be(p.z.bits)[0]);
    assert(bytes[71] == spec_i16_be(p.z.bits)[1]);
    lemma_i16_be_round_trip(p.x.bits);
    lemma_i16_be_round_trip(p.y.bits);
    lemma_i16_be_round_trip(p.z.bits);
    let b = p.player_id;
    assert((b as u8) as i8 == b) by (bit_vector);
    lemma_mcstring_view_injective(q.player_name, p.player_name);
}

} // verus!
