use std::io::Read;

use voxel_core::blocks::Block;
use voxel_core::world::chunk_frames;
use voxel_core::world::World;
use voxel_core::world::WorldError;

fn gunzip(data: &[u8]) -> Vec<u8> {
    let mut decoder = libflate::gzip::Decoder::new(data).expect("valid gzip stream");
    let mut out = Vec::new();
    decoder.read_to_end(&mut out).expect("valid gzip stream");
    out
}

fn reassemble(frames: &[([u8; 1024], usize)]) -> Vec<u8> {
    let mut out = Vec::new();
    for (data, len) in frames {
        out.extend_from_slice(&data[..*len]);
    }
    out
}

#[test]
fn new_world_fills_lower_half_with_grass() {
    let w = World::new(4, 4, 4);
    assert_eq!(w.x_size(), 4);
    assert_eq!(w.y_size(), 4);
    assert_eq!(w.z_size(), 4);
    assert_eq!(w.block_at((0, 0, 0)), Ok(Block::Grass));
    assert_eq!(w.block_at((3, 1, 3)), Ok(Block::Grass));
    assert_eq!(w.block_at((0, 2, 0)), Ok(Block::Air));
    assert_eq!(w.block_at((3, 3, 3)), Ok(Block::Air));
}

#[test]
fn set_block_in_bounds_changes_only_that_voxel() {
    let mut w = World::new(4, 4, 4);
    assert_eq!(w.set_block((1, 3, 2), Block::Grass), Ok(()));
    assert_eq!(w.block_at((1, 3, 2)), Ok(Block::Grass));
    assert_eq!(w.block_at((1, 3, 1)), Ok(Block::Air));
    assert_eq!(w.block_at((2, 3, 2)), Ok(Block::Air));
}

#[test]
fn set_block_out_of_bounds_is_rejected() {
    let mut w = World::new(4, 4, 4);
    assert_eq!(w.set_block((4, 0, 0), Block::Grass), Err(WorldError::OutOfBounds));
    assert_eq!(w.set_block((0, 7, 0), Block::Grass), Err(WorldError::OutOfBounds));
    assert_eq!(w.block_at((9, 0, 0)), Err(WorldError::OutOfBounds));
}

#[test]
fn snapshot_decompresses_to_length_prefixed_block_run() {
    let w = World::new(4, 4, 4);
    let frames = w.into_byte_array();
    assert!(!frames.is_empty());
    let compressed = reassemble(&frames);
    let payload = gunzip(&compressed);
    // 4-byte big-endian length, then one byte per voxel
    assert_eq!(payload.len(), 4 + 64);
    assert_eq!(&payload[..4], &[0, 0, 0, 64]);
    // layers y=0 and y=1 are grass (0x02), y=2 and y=3 are air (0x00)
    assert!(payload[4..4 + 32].iter().all(|&b| b == 0x02));
    assert!(payload[4 + 32..].iter().all(|&b| b == 0x00));
}

#[test]
fn snapshot_reflects_edits() {
    let mut w = World::new(2, 2, 2);
    w.set_block((1, 1, 0), Block::Grass).unwrap();
    let payload = gunzip(&reassemble(&w.into_byte_array()));
    assert_eq!(&payload[..4], &[0, 0, 0, 8]);
    // index of (x=1, y=1, z=0) in (y, z, x) order: 1 + 2 * (0 + 2 * 1) = 5
    assert_eq!(payload[4 + 5], 0x02);
    assert_eq!(payload[4 + 6], 0x00);
}

#[test]
fn frame_count_is_compressed_length_ceiling() {
    let w = World::new(16, 16, 16);
    let frames = w.into_byte_array();
    let compressed_len = reassemble(&frames).len();
    assert_eq!(frames.len(), compressed_len.div_ceil(1024));
    for (i, (_, len)) in frames.iter().enumerate() {
        if i + 1 < frames.len() {
            assert_eq!(*len, 1024);
        } else {
            assert!(*len >= 1 && *len <= 1024);
        }
    }
}

#[test]
fn chunk_frames_splits_and_pads() {
    let data: Vec<u8> = (0..3000u32).map(|i| (i % 256) as u8).collect();
    let frames = chunk_frames(&data);
    assert_eq!(frames.len(), 3);
    assert_eq!(frames[0].1, 1024);
    assert_eq!(frames[1].1, 1024);
    assert_eq!(frames[2].1, 952);
    assert!(frames[2].0[952..].iter().all(|&b| b == 0));
    assert_eq!(reassemble(&frames), data);
}

#[test]
fn chunk_frames_exact_multiple_has_no_padding_frame() {
    let data = vec![7u8; 2048];
    let frames = chunk_frames(&data);
    assert_eq!(frames.len(), 2);
    assert_eq!(frames[0].1, 1024);
    assert_eq!(frames[1].1, 1024);
    assert_eq!(reassemble(&frames), data);
}

#[test]
fn chunk_frames_of_empty_input_is_empty() {
    let frames = chunk_frames(&[]);
    assert!(frames.is_empty());
}

#[test]
fn block_wire_ids() {
    assert_eq!(Block::Air.wire_id(), 0x00);
    assert_eq!(Block::Grass.wire_id(), 0x02);
}
