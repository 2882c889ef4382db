//! The voxel grid and the snapshot encoder: the grid is a dense block store
//! over `[0,xSize) x [0,ySize) x [0,zSize)`; the encoder serializes it into
//! one byte per voxel ordered by layer (y), then row (z), then column (x),
//! prepends a big-endian length field, compresses the whole buffer, and
//! splits the result into zero-padded 1024-byte frames for the wire.
use vstd::prelude::*;
use vstd::arithmetic::div_mod::lemma_fundamental_div_mod_converse;

use crate::blocks::Block;

verus! {


/// How a grid write can fail: the coordinate lies outside the fixed bounds.
#[derive(Clone, Copy, Debug, PartialEq, Eq, Structural)]
pub enum WorldError {
    OutOfBounds,
}

/// Position of the voxel `(x, y, z)` in the serialized block run: layers
/// first (y), rows within a layer next (z), columns last (x).
pub open spec fn spec_flat_index(x: int, y: int, z: int, xs: int, zs: int) -> int {
    x + xs * (z + zs * y)
}

/// The block the flat default terrain puts at height `y`: solid below the
/// half height, air above.
pub open spec fn spec_terrain(y: int, ys: int) -> Block {
    if y < ys / 2 {
        Block::Grass
    } else {
        Block::Air
    }
}

/// A flat index decomposes uniquely back into its coordinate.
proof fn lemma_flat_index_decompose(x: int, y: int, z: int, xs: int, zs: int)
    requires
        0 <= x < xs,
        0 <= z < zs,
        0 <= y,
    ensures
        spec_flat_index(x, y, z, xs, zs) % xs == x,
        spec_flat_index(x, y, z, xs, zs) / xs == z + zs * y,
        (z + zs * y) % zs == z,
        (z + zs * y) / zs == y,
        spec_flat_index(x, y, z, xs, zs) / (xs * zs) == y,
{
    let idx = spec_flat_index(x, y, z, xs, zs);
    assert(0 <= z + zs * y) by (nonlinear_arith)
        requires
            0 <= z,
            0 <= y,
            0 < zs,
    ;
    assert(idx == (z + zs * y) * xs + x) by (nonlinear_arith)
        requires
            idx == x + xs * (z + zs * y),
    ;
    lemma_fundamental_div_mod_converse(idx, xs, z + zs * y, x);
    assert(z + zs * y == y * zs + z) by (nonlinear_arith);
    lemma_fundamental_div_mod_converse(z + zs * y, zs, y, z);
    assert(idx == y * (xs * zs) + (x + xs * z)) by (nonlinear_arith)
        requires
            idx == x + xs * (z + zs * y),
    ;
    assert(0 <= x + xs * z < xs * zs) by (nonlinear_arith)
        requires
            0 <= x < xs,
            0 <= z < zs,
    ;
    lemma_fundamental_div_mod_converse(idx, xs * zs, y, x + xs * z);
}

/// Every in-bounds coordinate's flat index lies inside the block run.
proof fn lemma_flat_index_range(x: int, y: int, z: int, xs: int, ys: int, zs: int)
    requires
        0 <= x < xs,
        0 <= y < ys,
        0 <= z < zs,
    ensures
        0 <= spec_flat_index(x, y, z, xs, zs) < xs * zs * ys,
{
    assert(0 <= x + xs * (z + zs * y) < xs * zs * ys) by (nonlinear_arith)
        requires
            0 <= x < xs,
            0 <= y < ys,
            0 <= z < zs,
    ;
}

/// Distinct in-bounds coordinates have distinct flat indices.
proof fn lemma_flat_index_injective(
    x1: int,
    y1: int,
    z1: int,
    x2: int,
    y2: int,
    z2: int,
    xs: int,
    zs: int,
)
    requires
        0 <= x1 < xs,
        0 <= z1 < zs,
        0 <= y1,
        0 <= x2 < xs,
        0 <= z2 < zs,
        0 <= y2,
        spec_flat_index(x1, y1, z1, xs, zs) == spec_flat_index(x2, y2, z2, xs, zs),
    ensures
        x1 == x2 && y1 == y2 && z1 == z2,
{
    lemma_flat_index_decompose(x1, y1, z1, xs, zs);
    lemma_flat_index_decompose(x2, y2, z2, xs, zs);
}

/// The voxel grid: fixed dimensions and one block per coordinate, stored in
/// the serialization order (y, then z, then x).
pub struct World {
    x_size: u16,
    y_size: u16,
    z_size: u16,
    blocks: Vec<Block>,
}

impl World {
    /// Width of the grid along x.
    pub closed spec fn spec_x_size(self) -> u16 {
        self.x_size
    }

    /// Height of the grid along y.
    pub closed spec fn spec_y_size(self) -> u16 {
        self.y_size
    }

    /// Depth of the grid along z.
    pub closed spec fn spec_z_size(self) -> u16 {
        self.z_size
    }

    /// The serialized block run, ordered by (y, z, x).
    pub closed spec fn spec_blocks(self) -> Seq<Block> {
        self.blocks@
    }

    /// Number of voxels in the grid.
    pub open spec fn spec_volume(self) -> int {
        self.spec_x_size() * self.spec_z_size() * self.spec_y_size()
    }

    /// The grid's invariant: one stored block per voxel, and a volume small
    /// enough for the snapshot's 32-bit length field.
    pub open spec fn wf(self) -> bool {
        &&& self.spec_blocks().len() == self.spec_volume()
        &&& self.spec_volume() <= u32::MAX
    }

    /// Whether `(x, y, z)` lies inside the grid.
    pub open spec fn spec_in_bounds(self, x: int, y: int, z: int) -> bool {
        0 <= x < self.spec_x_size() && 0 <= y < self.spec_y_size() && 0 <= z
            < self.spec_z_size()
    }

    /// The block stored at an in-bounds coordinate.
    pub open spec fn spec_block_at(self, x: int, y: int, z: int) -> Block {
        self.spec_blocks()[spec_flat_index(
            x,
            y,
            z,
            self.spec_x_size() as int,
            self.spec_z_size() as int,
        )]
    }

    /// Exec accessor for the width along x.
    pub fn x_size(&self) -> (r: u16)
        ensures
            r == self.spec_x_size(),
    {
        self.x_size
    }

    /// Exec accessor for the height along y.
    pub fn y_size(&self) -> (r: u16)
        ensures
            r == self.spec_y_size(),
    {
        self.y_size
    }

    /// Exec accessor for the depth along z.
    pub fn z_size(&self) -> (r: u16)
        ensures
            r == self.spec_z_size(),
    {
        self.z_size
    }

    /// Builds the default world: every layer below the half height is solid,
    /// everything above is air.
    #[verifier::loop_isolation(false)]
    pub fn new(x_size: u16, z_size: u16, y_size: u16) -> (r: Self)
        requires
            x_size as int * z_size as int * y_size as int <= u32::MAX,
        ensures
            r.wf(),
            r.spec_x_size() == x_size,
            r.spec_y_size() == y_size,
            r.spec_z_size() == z_size,
            forall|x: int, y: int, z: int|
                r.spec_in_bounds(x, y, z) ==> r.spec_block_at(x, y, z) == spec_terrain(
                    y,
                    y_size as int,
                ),
    {
        let ghost xs: int = x_size as int;
        let ghost ys: int = y_size as int;
        let ghost zs: int = z_size as int;
        let half = y_size / 2;
        let mut blocks: Vec<Block> = Vec::new();
        let mut y: u16 = 0;
        while y < y_size
            invariant
                y <= y_size,
                half == y_size / 2,
                blocks@.len() == xs * (zs * y),
                xs * (zs * y) <= xs * zs * ys,
                forall|i: int|
                    0 <= i < blocks@.len() ==> blocks@[i] == spec_terrain(i / (xs * zs), ys),
            decreases y_size - y,
        {
            let mut z: u16 = 0;
            while z < z_size
                invariant
                    z <= z_size,
                    y < y_size,
                    half == y_size / 2,
                    blocks@.len() == xs * (z + zs * y),
                    xs * (z + zs * y) <= xs * zs * ys,
                    forall|i: int|
                        0 <= i < blocks@.len() ==> blocks@[i] == spec_terrain(i / (xs * zs), ys),
                decreases z_size - z,
            {
                let mut x: u16 = 0;
                while x < x_size
                    invariant
                        x <= x_size,
                        z < z_size,
                        y < y_size,
                        half == y_size / 2,
                        blocks@.len() == spec_flat_index(x as int, y as int, z as int, xs, zs),
                        spec_flat_index(x as int, y as int, z as int, xs, zs) <= xs * zs * ys,
                        forall|i: int|
                            0 <= i < blocks@.len() ==> blocks@[i] == spec_terrain(
                                i / (xs * zs),
                                ys,
                            ),
                    decreases x_size - x,
                {
                    let b = if y < half {
                        Block::Grass
                    } else {
                        Block::Air
                    };
                    proof {
                        lemma_flat_index_decompose(x as int, y as int, z as int, xs, zs);
                        assert(blocks@.len() as int / (xs * zs) == y as int);
                        assert(b == spec_terrain(y as int, ys));
                        lemma_flat_index_range(x as int, y as int, z as int, xs, ys, zs);
                        assert(spec_flat_index(x as int + 1, y as int, z as int, xs, zs)
                            == spec_flat_index(x as int, y as int, z as int, xs, zs) + 1);
                        assert(spec_flat_index(x as int + 1, y as int, z as int, xs, zs) <= xs * zs
                            * ys) by (nonlinear_arith)
                            requires
                                0 <= x as int + 1 <= xs,
                                0 <= z < zs,
                                0 <= y < ys,
                        ;
                    }
                    blocks.push(b);
                    x += 1;
                }
                proof {
                    assert(xs * ((z + 1) + zs * y) == xs + xs * (z + zs * y)) by (nonlinear_arith);
                    assert(xs * ((z + 1) + zs * y) <= xs * zs * ys) by (nonlinear_arith)
                        requires
                            0 <= z + 1 <= zs,
                            0 <= y < ys,
                            0 <= xs,
                    ;
                }
                z += 1;
            }
            proof {
                assert(xs * (zs * (y + 1)) == xs * (zs + zs * y)) by (nonlinear_arith);
                assert(xs * (zs * (y + 1)) <= xs * zs * ys) by (nonlinear_arith)
                    requires
                        0 <= y + 1 <= ys,
                        0 <= xs,
                        0 <= zs,
                ;
            }
            y += 1;
        }
        let world = World { x_size, y_size, z_size, blocks };
        proof {
            assert(xs * (zs * ys) == xs * zs * ys) by (nonlinear_arith);
            assert forall|x: int, y: int, z: int| world.spec_in_bounds(x, y, z) implies
                world.spec_block_at(x, y, z) == spec_terrain(y, ys) by {
                lemma_flat_index_range(x, y, z, xs, ys, zs);
                lemma_flat_index_decompose(x, y, z, xs, zs);
            }
        }
        world
    }

    /// Replaces the block at `coords`; a coordinate outside the grid is
    /// rejected and leaves the grid unchanged.
    pub fn set_block(&mut self, coords: (u16, u16, u16), block_type: Block) -> (r: Result<
        (),
        WorldError,
    >)
        requires
            old(self).wf(),
        ensures
            final(self).wf(),
            final(self).spec_x_size() == old(self).spec_x_size(),
            final(self).spec_y_size() == old(self).spec_y_size(),
            final(self).spec_z_size() == old(self).spec_z_size(),
            match r {
                Ok(()) => {
                    &&& old(self).spec_in_bounds(coords.0 as int, coords.1 as int, coords.2 as int)
                    &&& final(self).spec_blocks() == old(self).spec_blocks().update(
                        spec_flat_index(
                            coords.0 as int,
                            coords.1 as int,
                            coords.2 as int,
                            old(self).spec_x_size() as int,
                            old(self).spec_z_size() as int,
                        ),
                        block_type,
                    )
                    &&& final(self).spec_block_at(
                        coords.0 as int,
                        coords.1 as int,
                        coords.2 as int,
                    ) == block_type
                    &&& forall|x: int, y: int, z: int|
                        final(self).spec_in_bounds(x, y, z) && (x, y, z) != (
                            coords.0 as int,
                            coords.1 as int,
                            coords.2 as int,
                        ) ==> final(self).spec_block_at(x, y, z) == old(self).spec_block_at(x, y, z)
                },
                Err(WorldError::OutOfBounds) => {
                    &&& !old(self).spec_in_bounds(
                        coords.0 as int,
                        coords.1 as int,
                        coords.2 as int,
                    )
                    &&& *final(self) == *old(self)
                },
            },
    {
        let (x, y, z) = coords;
        if x >= self.x_size || y >= self.y_size || z >= self.z_size {
            return Err(WorldError::OutOfBounds);
        }
        let ghost xs: int = self.x_size as int;
        let ghost ys: int = self.y_size as int;
        let ghost zs: int = self.z_size as int;
        proof {
            lemma_flat_index_range(x as int, y as int, z as int, xs, ys, zs);
            assert(zs * (y as int) <= spec_flat_index(x as int, y as int, z as int, xs, zs))
                by (nonlinear_arith)
                requires
                    0 <= x,
                    0 <= z,
                    0 <= y,
                    1 <= xs,
                    0 <= zs,
            ;
            assert((z as int) + zs * (y as int) <= spec_flat_index(
                x as int,
                y as int,
                z as int,
                xs,
                zs,
            )) by (nonlinear_arith)
                requires
                    0 <= x,
                    0 <= z,
                    0 <= y,
                    1 <= xs,
                    0 <= zs,
            ;
        }
        let idx: usize = (x as usize) + (self.x_size as usize) * ((z as usize) + (self.z_size
            as usize) * (y as usize));
        self.blocks[idx] = block_type;
        proof {
            let c = (coords.0 as int, coords.1 as int, coords.2 as int);
            assert forall|x2: int, y2: int, z2: int|
                self.spec_in_bounds(x2, y2, z2) && (x2, y2, z2) != c implies self.spec_block_at(
                x2,
                y2,
                z2,
            ) == old(self).spec_block_at(x2, y2, z2) by {
                lemma_flat_index_range(x2, y2, z2, xs, ys, zs);
                if spec_flat_index(x2, y2, z2, xs, zs) == spec_flat_index(c.0, c.1, c.2, xs, zs) {
                    lemma_flat_index_injective(x2, y2, z2, c.0, c.1, c.2, xs, zs);
                }
            }
        }
        Ok(())
    }

    /// Reads the block at `coords`; a coordinate outside the grid is
    /// rejected.
    pub fn block_at(&self, coords: (u16, u16, u16)) -> (r: Result<Block, WorldError>)
        requires
            self.wf(),
        ensures
            match r {
                Ok(b) => self.spec_in_bounds(coords.0 as int, coords.1 as int, coords.2 as int)
                    && b == self.spec_block_at(coords.0 as int, coords.1 as int, coords.2 as int),
                Err(WorldError::OutOfBounds) => !self.spec_in_bounds(
                    coords.0 as int,
                    coords.1 as int,
                    coords.2 as int,
                ),
            },
    {
        let (x, y, z) = coords;
        if x >= self.x_size || y >= self.y_size || z >= self.z_size {
            return Err(WorldError::OutOfBounds);
        }
        let ghost xs: int = self.x_size as int;
        let ghost ys: int = self.y_size as int;
        let ghost zs: int = self.z_size as int;
        proof {
            lemma_flat_index_range(x as int, y as int, z as int, xs, ys, zs);
            assert(zs * (y as int) <= spec_flat_index(x as int, y as int, z as int, xs, zs))
                by (nonlinear_arith)
                requires
                    0 <= x,
                    0 <= z,
                    0 <= y,
                    1 <= xs,
                    0 <= zs,
            ;
            assert((z as int) + zs * (y as int) <= spec_flat_index(
                x as int,
                y as int,
                z as int,
                xs,
                zs,
            )) by (nonlinear_arith)
                requires
                    0 <= x,
                    0 <= z,
                    0 <= y,
                    1 <= xs,
                    0 <= zs,
            ;
        }
        let idx: usize = (x as usize) + (self.x_size as usize) * ((z as usize) + (self.z_size
            as usize) * (y as usize));
        Ok(self.blocks[idx])
    }

    /// The level snapshot before compression: a 4-byte big-endian count of
    /// the block bytes, then one wire id per voxel in (y, z, x) order.
    pub open spec fn spec_payload(self) -> Seq<u8> {
        spec_u32_be(self.spec_volume() as u32) + self.spec_blocks().map_values(
            |b: Block| b.spec_wire_id(),
        )
    }

    /// Serializes, compresses and frames the whole grid for the wire: the
    /// result is the compressed snapshot split into zero-padded 1024-byte
    /// frames, each paired with its true payload length.
    pub fn into_byte_array(&self) -> (r: Vec<([u8; 1024], usize)>)
        requires
            self.wf(),
        ensures
            frames_of(gzip_of(self.spec_payload()), r@),
    {
        let ghost vol32: u32 = (self.spec_volume() as u32);
        let vol = self.blocks.len();
        let mut payload: Vec<u8> = Vec::new();
        push_u32_be(&mut payload, vol as u32);
        let mut i: usize = 0;
        while i < vol
            invariant
                vol == self.spec_blocks().len(),
                i <= vol,
                payload@.len() == 4 + i,
                payload@.subrange(0, 4) == spec_u32_be(vol32),
                forall|j: int|
                    0 <= j < i ==> payload@[4 + j] == (#[trigger] self.spec_blocks()[j]).spec_wire_id(),
            decreases vol - i,
        {
            let ghost prev: Seq<u8> = payload@;
            payload.push(self.blocks[i].wire_id());
            proof {
                assert(payload@.subrange(0, 4) =~= prev.subrange(0, 4));
            }
            i += 1;
        }
        proof {
            assert(payload@ =~= self.spec_payload());
        }
        let compressed = gzip_compress(&payload);
        chunk_frames(compressed.as_slice())
    }
}

/// The four big-endian bytes of a 32-bit value.
pub open spec fn spec_u32_be(v: u32) -> Seq<u8> {
    seq![(v >> 24) as u8, ((v >> 16) & 0xff) as u8, ((v >> 8) & 0xff) as u8, (v & 0xff) as u8]
}

/// Appends the four big-endian bytes of `v`.
fn push_u32_be(out: &mut Vec<u8>, v: u32)
    ensures
        final(out)@ == old(out)@ + spec_u32_be(v),
{
    proof {
        assert((v >> 24) < 256) by (bit_vector);
        assert(((v >> 16) & 0xff) < 256) by (bit_vector);
        assert(((v >> 8) & 0xff) < 256) by (bit_vector);
        assert((v & 0xff) < 256) by (bit_vector);
    }
    out.push((v >> 24) as u8);
    out.push(((v >> 16) & 0xff) as u8);
    out.push(((v >> 8) & 0xff) as u8);
    out.push((v & 0xff) as u8);
    proof {
        assert(out@ =~= old(out)@ + spec_u32_be(v));
    }
}

/// What the compression codec produces for a given input. The codec is run
/// with a pinned header, so its output depends on the input bytes alone; no
/// shorter statement of the compressed stream exists, so it only has a name.
pub uninterp spec fn gzip_of(data: Seq<u8>) -> Seq<u8>;

/// Relies on libflate's gzip encoder: with the header's modification time
/// pinned to zero, the stream it writes is a deterministic function of the
/// input bytes, and it is never empty (the format always carries a header
/// and a trailer). Writing into a `Vec` cannot fail.
#[verifier::external_body]
fn gzip_compress(data: &Vec<u8>) -> (r: Vec<u8>)
    ensures
        r@ == gzip_of(data@),
        r@.len() > 0,
{
    let header = libflate::gzip::HeaderBuilder::new().modification_time(0).finish();
    let options = libflate::gzip::EncodeOptions::new().header(header);
    let mut encoder = libflate::gzip::Encoder::with_options(Vec::new(), options).expect(
        "writing to a Vec cannot fail",
    );
    std::io::Write::write_all(&mut encoder, data.as_slice()).expect("writing to a Vec cannot fail");
    encoder.finish().into_result().expect("writing to a Vec cannot fail")
}

/// Number of 1024-byte frames a byte run of length `total` splits into.
pub open spec fn spec_frame_count(total: int) -> int {
    (total + 1023) / 1024
}

/// True payload length of frame `i` of a byte run of length `total`: a full
/// 1024 bytes, except for a shorter final frame.
pub open spec fn spec_frame_len(total: int, i: int) -> int {
    if total - 1024 * i >= 1024 {
        1024
    } else {
        total - 1024 * i
    }
}

/// What framing promises: `frames` covers `data` in order, every frame's
/// true length is full except possibly the last, and the bytes past a
/// frame's true length are zero padding.
pub open spec fn frames_of(data: Seq<u8>, frames: Seq<([u8; 1024], usize)>) -> bool {
    &&& frames.len() == spec_frame_count(data.len() as int)
    &&& forall|i: int|
        0 <= i < frames.len() ==> (#[trigger] frames[i]).1 == spec_frame_len(data.len() as int, i)
    &&& forall|i: int|
        0 <= i < frames.len() ==> (#[trigger] frames[i]).0@.subrange(0, frames[i].1 as int)
            == data.subrange(1024 * i, 1024 * i + frames[i].1)
    &&& forall|i: int, j: int|
        0 <= i < frames.len() && frames[i].1 <= j < 1024 ==> #[trigger] frames[i].0@[j] == 0
}

/// Splits a byte run into zero-padded 1024-byte frames, each paired with its
/// true payload length.
#[verifier::loop_isolation(false)]
pub fn chunk_frames(data: &[u8]) -> (r: Vec<([u8; 1024], usize)>)
    ensures
        frames_of(data@, r@),
{
    let n = data.len();
    let mut out: Vec<([u8; 1024], usize)> = Vec::new();
    let mut pos: usize = 0;
    while pos < n
        invariant
            pos <= n,
            pos == 1024 * out@.len() || (pos == n && out@.len() >= 1 && n > 1024 * (out@.len() - 1)
                && n < 1024 * out@.len()),
            forall|i: int|
                0 <= i < out@.len() ==> (#[trigger] out@[i]).1 == spec_frame_len(n as int, i),
            forall|i: int|
                0 <= i < out@.len() ==> (#[trigger] out@[i]).0@.subrange(0, out@[i].1 as int)
                    == data@.subrange(1024 * i, 1024 * i + out@[i].1),
            forall|i: int, j: int|
                0 <= i < out@.len() && out@[i].1 <= j < 1024 ==> #[trigger] out@[i].0@[j] == 0,
        decreases n - pos,
    {
        let remaining = n - pos;
        let flen = if remaining >= 1024 {
            1024
        } else {
            remaining
        };
        let mut arr: [u8; 1024] = [0; 1024];
        let mut j: usize = 0;
        while j < flen
            invariant
                j <= flen,
                flen <= 1024,
                pos + flen <= n,
                forall|jj: int| 0 <= jj < j ==> arr@[jj] == data@[pos + jj],
                forall|jj: int| j <= jj < 1024 ==> arr@[jj] == 0,
            decreases flen - j,
        {
            arr[j] = data[pos + j];
            j += 1;
        }
        proof {
            let k = out@.len() as int;
            assert(arr@.subrange(0, flen as int) =~= data@.subrange(
                1024 * k,
                1024 * k + flen as int,
            ));
        }
        out.push((arr, flen));
        pos += flen;
    }
    proof {
        let k = out@.len() as int;
        let total = n as int;
        if pos == 1024 * k {
            lemma_fundamental_div_mod_converse(total + 1023, 1024, k, 1023);
        } else {
            lemma_fundamental_div_mod_converse(total + 1023, 1024, k, total + 1023 - 1024 * k);
        }
    }
    out
}

/// The frames' true payloads laid end to end, padding stripped.
pub open spec fn spec_concat_frames(frames: Seq<([u8; 1024], usize)>) -> Seq<u8>
    decreases frames.len(),
{
    if frames.len() == 0 {
        Seq::empty()
    } else {
        spec_concat_frames(frames.drop_last()) + frames.last().0@.subrange(
            0,
            frames.last().1 as int,
        )
    }
}

/// Snapshot reassembly: concatenating every frame's true payload, padding
/// stripped, reproduces the framed byte run exactly.
pub proof fn lemma_frames_reassemble(data: Seq<u8>, frames: Seq<([u8; 1024], usize)>)
    requires
        frames_of(data, frames),
    ensures
        spec_concat_frames(frames) == data,
    decreases frames.len(),
{
    let k = frames.len() as int;
    let total = data.len() as int;
    vstd::arithmetic::div_mod::lemma_fundamental_div_mod(total + 1023, 1024);
    vstd::arithmetic::div_mod::lemma_mod_pos_bound(total + 1023, 1024);
    if k == 0 {
        assert(data =~= Seq::<u8>::empty());
    } else {
        let head = data.take(1024 * (k - 1));
        let rest = frames.drop_last();
        assert(1024 * (k - 1) < total <= 1024 * k);
        lemma_fundamental_div_mod_converse(
            1024 * (k - 1) + 1023,
            1024,
            k - 1,
            1023,
        );
        assert forall|i: int| 0 <= i < rest.len() implies (#[trigger] rest[i]).1 == spec_frame_len(
            head.len() as int,
            i,
        ) by {
            assert(rest[i] == frames[i]);
        }
        assert forall|i: int| 0 <= i < rest.len() implies (#[trigger] rest[i]).0@.subrange(
            0,
            rest[i].1 as int,
        ) == head.subrange(1024 * i, 1024 * i + rest[i].1) by {
            assert(rest[i] == frames[i]);
            assert(head.subrange(1024 * i, 1024 * i + rest[i].1) =~= data.subrange(
                1024 * i,
                1024 * i + rest[i].1,
            ));
        }
        assert(frames_of(head, rest));
        lemma_frames_reassemble(head, rest);
        let last = frames.last();
        assert(last.1 == spec_frame_len(total, k - 1));
        assert(last.0@.subrange(0, last.1 as int) == data.subrange(
            1024 * (k - 1),
            1024 * (k - 1) + last.1,
        ));
        assert(spec_concat_frames(frames) =~= data);
    }
}

} // verus!
