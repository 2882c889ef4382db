//! Core of a small multiplayer voxel-world server: the binary packet codec
//! used on the wire, the per-connection session lifecycle, and the encoder
//! that turns the voxel grid into a compressed, chunked byte stream.
//! Networking itself — sockets, scheduling, persistence — lives outside this
//! crate; everything here works on plain values and is verified.
pub mod fixed_string;
pub mod blocks;
pub mod packets;
pub mod session;
pub mod world;
