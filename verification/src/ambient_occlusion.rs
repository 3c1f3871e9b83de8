//! Per-corner ambient occlusion of a voxel face: each corner counts the
//! solid blocks among its two edge neighbours and one corner neighbour in
//! the layer the face looks into.

use vstd::prelude::*;

use crate::block_type::BlockType;
use crate::direction::{Axis, dir_step};
use crate::voxel_data::{VoxelData, grid_at_cell};

verus! {

/// The occlusion counts of the four corners of one face. Corner 1 is at
/// (width-, height-), corner 2 at (width+, height-), corner 3 at
/// (width+, height+), corner 4 at (width-, height+).
#[derive(Copy, Clone, Debug, PartialEq, Eq, Structural)]
pub struct AmbiantOcclusion {
    pub corner_1: u8,
    pub corner_2: u8,
    pub corner_3: u8,
    pub corner_4: u8,
}

/// Whether `b` occludes light: every block but Air does.
pub open spec fn spec_occludes(b: BlockType) -> int {
    if b == BlockType::Air {
        0
    } else {
        1
    }
}

/// The ambient occlusion quadruple of the face at (slice `i`, width `w`,
/// height `h`) looking along (`axis`, `positive`), read from grid contents
/// `g`. Each corner sums the solidity of its three neighbours in the layer
/// `i + step`.
pub open spec fn ao_at(g: Seq<BlockType>, axis: Axis, positive: bool, i: int, w: int, h: int)
    -> AmbiantOcclusion {
    let q = i + dir_step(positive);
    let wm = spec_occludes(grid_at_cell(g, axis, q, w - 1, h));
    let wp = spec_occludes(grid_at_cell(g, axis, q, w + 1, h));
    let hm = spec_occludes(grid_at_cell(g, axis, q, w, h - 1));
    let hp = spec_occludes(grid_at_cell(g, axis, q, w, h + 1));
    let c_mm = spec_occludes(grid_at_cell(g, axis, q, w - 1, h - 1));
    let c_pm = spec_occludes(grid_at_cell(g, axis, q, w + 1, h - 1));
    let c_pp = spec_occludes(grid_at_cell(g, axis, q, w + 1, h + 1));
    let c_mp = spec_occludes(grid_at_cell(g, axis, q, w - 1, h + 1));
    AmbiantOcclusion {
        corner_1: (wm + hm + c_mm) as u8,
        corner_2: (wp + hm + c_pm) as u8,
        corner_3: (wp + hp + c_pp) as u8,
        corner_4: (wm + hp + c_mp) as u8,
    }
}

impl AmbiantOcclusion {
    /// True when the quad should be triangulated along the corner 1 to
    /// corner 3 diagonal: exactly when that pair carries the larger
    /// occlusion sum, so the seam separates the less occluded pair.
    pub fn turn_quad(&self) -> (r: bool)
        requires
            self.corner_1 + self.corner_3 <= u8::MAX,
            self.corner_2 + self.corner_4 <= u8::MAX,
        ensures
            r == (self.corner_1 + self.corner_3 > self.corner_2 + self.corner_4),
    {
        self.corner_1 + self.corner_3 > self.corner_2 + self.corner_4
    }
}

fn occludes(b: BlockType) -> (r: u8)
    ensures
        r == spec_occludes(b),
{
    if b == BlockType::Air {
        0
    } else {
        1
    }
}

impl VoxelData {
    /// The ambient occlusion quadruple of the face at (slice `i`, width `w`,
    /// height `h`) looking along (`axis`, `positive`).
    pub fn get_ambiant_occlusion(&self, axis: Axis, positive: bool, i: usize, w: usize, h: usize)
        -> (r: AmbiantOcclusion)
        requires
            self.wf(),
            1 <= i <= 64,
            1 <= w <= 64,
            1 <= h <= 64,
        ensures
            r == ao_at(self@, axis, positive, i as int, w as int, h as int),
    {
        let q = if positive {
            i + 1
        } else {
            i - 1
        };
        let wm = occludes(self.block_at_cell(axis, q, w - 1, h));
        let wp = occludes(self.block_at_cell(axis, q, w + 1, h));
        let hm = occludes(self.block_at_cell(axis, q, w, h - 1));
        let hp = occludes(self.block_at_cell(axis, q, w, h + 1));
        let c_mm = occludes(self.block_at_cell(axis, q, w - 1, h - 1));
        let c_pm = occludes(self.block_at_cell(axis, q, w + 1, h - 1));
        let c_pp = occludes(self.block_at_cell(axis, q, w + 1, h + 1));
        let c_mp = occludes(self.block_at_cell(axis, q, w - 1, h + 1));
        AmbiantOcclusion {
            corner_1: wm + hm + c_mm,
            corner_2: wp + hm + c_pm,
            corner_3: wp + hp + c_pp,
            corner_4: wm + hp + c_mp,
        }
    }
}

} // verus!
