//! Positions of chunks and chunk trees. A chunk tree covers the XZ
//! footprint of one chunk at the coarsest LOD: 128 by 128 full-detail
//! chunks, 8192 voxels on a side.

use vstd::prelude::*;

use crate::chunk_lod::{ChunkLod, lod_rank, lod_multiplier, MAX_LOD_LEVEL};

verus! {

/// Voxels per side of a chunk tree footprint: `64 * 128`.
pub const TREE_SIZE_VOXELS: i64 = 8192;

/// The XZ position of a chunk tree, in footprint units.
#[derive(Copy, Clone, Debug, PartialEq, Eq, Structural)]
pub struct ChunkTreePos {
    pub x: i32,
    pub y: i32,
}

impl ChunkTreePos {
    pub fn new(x: i32, y: i32) -> (r: ChunkTreePos)
        ensures
            r == (ChunkTreePos { x, y }),
    {
        ChunkTreePos { x, y }
    }
}

/// The XZ position of a chunk in absolute full-detail chunk units.
#[derive(Copy, Clone, Debug, PartialEq, Eq, Structural)]
pub struct AbsoluteChunkPos {
    pub x: i64,
    pub y: i64,
}

impl AbsoluteChunkPos {
    pub fn new(x: i64, y: i64) -> (r: AbsoluteChunkPos)
        ensures
            r == (AbsoluteChunkPos { x, y }),
    {
        AbsoluteChunkPos { x, y }
    }

    /// The centre of this chunk in doubled world voxel units.
    pub fn get_pos_center(&self) -> (r: (i64, i64))
        requires
            -0x1_0000_0000 <= self.x <= 0x1_0000_0000,
            -0x1_0000_0000 <= self.y <= 0x1_0000_0000,
        ensures
            r.0 == 2 * self.x * 64 + 64,
            r.1 == 2 * self.y * 64 + 64,
    {
        (2 * self.x * 64 + 64, 2 * self.y * 64 + 64)
    }
}

/// The XZ position of a chunk relative to its tree, in full-detail chunk
/// units.
#[derive(Copy, Clone, Debug, PartialEq, Eq, Structural)]
pub struct RelativeChunkPos {
    pub x: i64,
    pub y: i64,
}

impl RelativeChunkPos {
    pub fn new(x: i64, y: i64) -> (r: RelativeChunkPos)
        ensures
            r == (RelativeChunkPos { x, y }),
    {
        RelativeChunkPos { x, y }
    }

    /// This position in absolute chunk units, inside the tree at `tree_pos`.
    pub fn to_absolute(&self, tree_pos: ChunkTreePos) -> (r: AbsoluteChunkPos)
        requires
            -0x1000_0000 <= self.x <= 0x1000_0000,
            -0x1000_0000 <= self.y <= 0x1000_0000,
        ensures
            r.x == self.x + tree_pos.x * 128,
            r.y == self.y + tree_pos.y * 128,
    {
        AbsoluteChunkPos { x: self.x + (tree_pos.x as i64) * 128, y: self.y + (tree_pos.y as i64) * 128 }
    }
}

/// The position of a node inside a chunk tree: its LOD and its XZ index
/// among the `2^(8 - rank)` nodes of that LOD per side.
#[derive(Copy, Clone, Debug, PartialEq, Eq, Structural)]
pub struct LodPosition {
    pub lod: ChunkLod,
    pub x: i32,
    pub z: i32,
}

impl LodPosition {
    /// A valid node position: inside the tree's grid of its LOD.
    pub open spec fn wf(&self) -> bool {
        &&& 1 <= lod_rank(self.lod) <= MAX_LOD_LEVEL
        &&& 0 <= self.x && self.x * lod_multiplier(self.lod) < 128
        &&& 0 <= self.z && self.z * lod_multiplier(self.lod) < 128
    }

    pub fn new(lod: ChunkLod, x: i32, z: i32) -> (r: LodPosition)
        ensures
            r == (LodPosition { lod, x, z }),
    {
        LodPosition { lod, x, z }
    }

    /// The +x, +z child quadrant, one LOD finer.
    pub fn to_top_right(&self) -> (r: LodPosition)
        requires
            self.wf(),
            self.lod != ChunkLod::Full,
        ensures
            r.wf(),
            lod_rank(r.lod) == lod_rank(self.lod) - 1,
            r.x == 2 * self.x + 1,
            r.z == 2 * self.z + 1,
    {
        let prev = self.lod.previous();
        proof {
            lemma_child_bounds(*self, lod_multiplier(prev));
        }
        LodPosition { lod: prev, x: 2 * self.x + 1, z: 2 * self.z + 1 }
    }

    /// The -x, +z child quadrant, one LOD finer.
    pub fn to_top_left(&self) -> (r: LodPosition)
        requires
            self.wf(),
            self.lod != ChunkLod::Full,
        ensures
            r.wf(),
            lod_rank(r.lod) == lod_rank(self.lod) - 1,
            r.x == 2 * self.x,
            r.z == 2 * self.z + 1,
    {
        let prev = self.lod.previous();
        proof {
            lemma_child_bounds(*self, lod_multiplier(prev));
        }
        LodPosition { lod: prev, x: 2 * self.x, z: 2 * self.z + 1 }
    }

    /// The +x, -z child quadrant, one LOD finer.
    pub fn to_bottom_right(&self) -> (r: LodPosition)
        requires
            self.wf(),
            self.lod != ChunkLod::Full,
        ensures
            r.wf(),
            lod_rank(r.lod) == lod_rank(self.lod) - 1,
            r.x == 2 * self.x + 1,
            r.z == 2 * self.z,
    {
        let prev = self.lod.previous();
        proof {
            lemma_child_bounds(*self, lod_multiplier(prev));
        }
        LodPosition { lod: prev, x: 2 * self.x + 1, z: 2 * self.z }
    }

    /// The -x, -z child quadrant, one LOD finer.
    pub fn to_bottom_left(&self) -> (r: LodPosition)
        requires
            self.wf(),
            self.lod != ChunkLod::Full,
        ensures
            r.wf(),
            lod_rank(r.lod) == lod_rank(self.lod) - 1,
            r.x == 2 * self.x,
            r.z == 2 * self.z,
    {
        let prev = self.lod.previous();
        proof {
            lemma_child_bounds(*self, lod_multiplier(prev));
        }
        LodPosition { lod: prev, x: 2 * self.x, z: 2 * self.z }
    }

    /// The doubled world voxel coordinates of the centre of this node's
    /// footprint inside the tree at `tree_pos`.
    pub fn footprint_center(&self, tree_pos: ChunkTreePos) -> (r: (i64, i64))
        requires
            self.wf(),
            -0x10_0000 <= tree_pos.x <= 0x10_0000,
            -0x10_0000 <= tree_pos.y <= 0x10_0000,
        ensures
            r.0 == 2 * tree_pos.x * 8192 + 2 * self.x * 64 * lod_multiplier(self.lod) + 64
                * lod_multiplier(self.lod),
            r.1 == 2 * tree_pos.y * 8192 + 2 * self.z * 64 * lod_multiplier(self.lod) + 64
                * lod_multiplier(self.lod),
    {
        let mult = self.lod.multiplier_i32() as i64;
        proof {
            assert(0 <= self.x * lod_multiplier(self.lod) < 128);
            assert(0 <= self.z * lod_multiplier(self.lod) < 128);
        }
        let cx = 2 * (tree_pos.x as i64) * 8192 + 2 * (self.x as i64) * 64 * mult + 64 * mult;
        let cz = 2 * (tree_pos.y as i64) * 8192 + 2 * (self.z as i64) * 64 * mult + 64 * mult;
        (cx, cz)
    }
}

/// Bounds of the child quadrants of a well-formed node position: the
/// doubled index stays inside the grid one LOD finer.
proof fn lemma_child_bounds(p: LodPosition, mp: int)
    requires
        p.wf(),
        p.lod != ChunkLod::Full,
        lod_multiplier(p.lod) == 2 * mp,
    ensures
        0 <= p.x < 64,
        0 <= p.z < 64,
        (2 * p.x + 1) * mp < 128,
        (2 * p.z + 1) * mp < 128,
        (2 * p.x) * mp < 128,
        (2 * p.z) * mp < 128,
{
    match p.lod {
        ChunkLod::Full => {
        },
        ChunkLod::TwoFiftySix => {
        },
        ChunkLod::Half => {
            assert(lod_multiplier(p.lod) == 2);
            assert(p.x < 64 && p.z < 64);
            assert((2 * p.x + 1) * mp < 128 && (2 * p.z + 1) * mp < 128 && (2 * p.x) * mp < 128 && (
            2 * p.z) * mp < 128) by (nonlinear_arith)
                requires
                    0 <= p.x < 64,
                    0 <= p.z < 64,
                    mp == 1,
            ;
        },
        ChunkLod::Quarter => {
            assert(lod_multiplier(p.lod) == 4);
            assert(p.x < 32 && p.z < 32);
            assert((2 * p.x + 1) * mp < 128 && (2 * p.z + 1) * mp < 128 && (2 * p.x) * mp < 128 && (
            2 * p.z) * mp < 128) by (nonlinear_arith)
                requires
                    0 <= p.x < 32,
                    0 <= p.z < 32,
                    mp == 2,
            ;
        },
        ChunkLod::Eighth => {
            assert(lod_multiplier(p.lod) == 8);
            assert(p.x < 16 && p.z < 16);
            assert((2 * p.x + 1) * mp < 128 && (2 * p.z + 1) * mp < 128 && (2 * p.x) * mp < 128 && (
            2 * p.z) * mp < 128) by (nonlinear_arith)
                requires
                    0 <= p.x < 16,
                    0 <= p.z < 16,
                    mp == 4,
            ;
        },
        ChunkLod::Sixteenth => {
            assert(lod_multiplier(p.lod) == 16);
            assert(p.x < 8 && p.z < 8);
            assert((2 * p.x + 1) * mp < 128 && (2 * p.z + 1) * mp < 128 && (2 * p.x) * mp < 128 && (
            2 * p.z) * mp < 128) by (nonlinear_arith)
                requires
                    0 <= p.x < 8,
                    0 <= p.z < 8,
                    mp == 8,
            ;
        },
        ChunkLod::Thirtytwoth => {
            assert(lod_multiplier(p.lod) == 32);
            assert(p.x < 4 && p.z < 4);
            assert((2 * p.x + 1) * mp < 128 && (2 * p.z + 1) * mp < 128 && (2 * p.x) * mp < 128 && (
            2 * p.z) * mp < 128) by (nonlinear_arith)
                requires
                    0 <= p.x < 4,
                    0 <= p.z < 4,
                    mp == 16,
            ;
        },
        ChunkLod::Sixtyfourth => {
            assert(lod_multiplier(p.lod) == 64);
            assert(p.x < 2 && p.z < 2);
            assert((2 * p.x + 1) * mp < 128 && (2 * p.z + 1) * mp < 128 && (2 * p.x) * mp < 128 && (
            2 * p.z) * mp < 128) by (nonlinear_arith)
                requires
                    0 <= p.x < 2,
                    0 <= p.z < 2,
                    mp == 32,
            ;
        },
        ChunkLod::OneTwentyEight => {
            assert(lod_multiplier(p.lod) == 128);
            assert(p.x < 1 && p.z < 1);
            assert((2 * p.x + 1) * mp < 128 && (2 * p.z + 1) * mp < 128 && (2 * p.x) * mp < 128 && (
            2 * p.z) * mp < 128) by (nonlinear_arith)
                requires
                    0 <= p.x < 1,
                    0 <= p.z < 1,
                    mp == 64,
            ;
        },
    }
}
} // verus!
