//! The block types a voxel can hold, and their one-byte wire ids.
use vstd::prelude::*;

verus! {

/// What a voxel holds. The flat default terrain uses only these two kinds.
#[derive(Clone, Copy, Debug, PartialEq, Eq, Structural)]
pub enum Block {
    Air,
    Grass,
}

impl Block {
    /// The one-byte id this block type has on the wire.
    pub open spec fn spec_wire_id(self) -> u8 {
        match self {
            Block::Air => 0x00,
            Block::Grass => 0x02,
        }
    }

    /// Exec counterpart of `spec_wire_id`.
    pub fn wire_id(self) -> (r: u8)
        ensures
            r == self.spec_wire_id(),
    {
        match self {
            Block::Air => 0x00,
            Block::Grass => 0x02,
        }
    }
}

} // verus!
