//! Block kinds and the face-covering rule that decides which voxel faces are
//! hidden by their neighbours.

use vstd::prelude::*;

verus! {

/// The kind of matter a voxel holds.
#[derive(Copy, Clone, PartialEq, Eq, Debug, Structural)]
pub enum BlockType {
    Air,
    Stone,
    Grass,
    Log,
    Snow,
    Leaf,
    Dirt,
}

/// One of the six axis-aligned faces of a voxel cube.
#[derive(Copy, Clone, PartialEq, Eq, Debug, Structural)]
pub enum BlockFace {
    Top,
    Bottom,
    Front,
    Back,
    Right,
    Left,
}

/// Texture-array layer of `block` on `face`.
pub open spec fn spec_texture_id(block: BlockType, face: BlockFace) -> u32 {
    match block {
        BlockType::Log => match face {
            BlockFace::Top | BlockFace::Bottom => 4u32,
            _ => 3u32,
        },
        BlockType::Grass => match face {
            BlockFace::Top => 0u32,
            BlockFace::Bottom => 7u32,
            _ => 6u32,
        },
        BlockType::Stone => 1u32,
        BlockType::Snow => 2u32,
        BlockType::Leaf => 5u32,
        BlockType::Dirt => 7u32,
        _ => 0u32,
    }
}

/// Whether a face of `other` that touches `covering` is hidden: a block
/// covers itself; Air and Leaf cover nothing else; every other block covers
/// every block.
pub open spec fn spec_is_covering_for(covering: BlockType, other: BlockType) -> bool {
    if covering == other {
        true
    } else {
        match covering {
            BlockType::Air | BlockType::Leaf => false,
            _ => true,
        }
    }
}

impl BlockType {
    /// Texture-array layer used to render `self` on `block_face`.
    pub fn get_texture_id(&self, block_face: BlockFace) -> (r: u32)
        ensures
            r == spec_texture_id(*self, block_face),
    {
        match self {
            BlockType::Log => match block_face {
                BlockFace::Top | BlockFace::Bottom => 4,
                _ => 3,
            },
            BlockType::Grass => match block_face {
                BlockFace::Top => 0,
                BlockFace::Bottom => 7,
                _ => 6,
            },
            BlockType::Stone => 1,
            BlockType::Snow => 2,
            BlockType::Leaf => 5,
            BlockType::Dirt => 7,
            _ => 0,
        }
    }

    /// True iff a face of `other` that is adjacent to `self` is hidden.
    pub fn is_covering_for(&self, other: &BlockType) -> (r: bool)
        ensures
            r == spec_is_covering_for(*self, *other),
    {
        if self == other {
            return true;
        }

        match self {
            BlockType::Air | BlockType::Leaf => false,
            _ => true,
        }
    }
}

/// Air and Leaf cover nothing but themselves: a face next to Air or next to
/// a Leaf of a different kind is never hidden.
pub proof fn lemma_air_and_leaf_cover_only_themselves(a: BlockType, b: BlockType)
    requires
        a == BlockType::Air || a == BlockType::Leaf,
    ensures
        spec_is_covering_for(a, b) <==> a == b,
{
}

} // verus!
