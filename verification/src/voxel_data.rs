//! The dense voxel grid of one chunk: `64^3` cells plus a one-voxel halo on
//! every face, so the mesher can query the neighbours of boundary voxels.

use vstd::prelude::*;

use crate::block_type::BlockType;
use crate::direction::{Axis, cell_x, cell_y, cell_z, dir_step};
use crate::ivec::IVec3;
use crate::PADDED_SIZE;

verus! {

/// Number of blocks in a padded voxel grid: `66^3`.
pub const VOXEL_ARRAY_LEN: usize = 287496;

/// Flat index of grid coordinate (x, y, z); layout is row-major
/// `x + 66*y + 66*66*z`.
pub open spec fn grid_index(x: int, y: int, z: int) -> int {
    x + 66 * y + 4356 * z
}

/// The block stored at grid coordinate (x, y, z) of grid contents `g`.
pub open spec fn grid_at(g: Seq<BlockType>, x: int, y: int, z: int) -> BlockType {
    g[grid_index(x, y, z)]
}

/// The block at the face cell (slice `i`, width `w`, height `h`) of the
/// rotated frame of `axis`.
pub open spec fn grid_at_cell(g: Seq<BlockType>, axis: Axis, i: int, w: int, h: int) -> BlockType {
    grid_at(g, cell_x(axis, i, w, h), cell_y(axis, i, w, h), cell_z(axis, i, w, h))
}

/// A dense padded voxel grid.
pub struct VoxelData {
    blocks: Vec<BlockType>,
}

impl VoxelData {
    /// The grid contents as a sequence of `66^3` blocks.
    pub closed spec fn view(&self) -> Seq<BlockType> {
        self.blocks@
    }

    /// A grid is well-formed when it holds exactly `66^3` blocks.
    pub open spec fn wf(&self) -> bool {
        self@.len() == VOXEL_ARRAY_LEN
    }

    /// The block at grid coordinate (x, y, z).
    pub open spec fn spec_block_at(&self, x: int, y: int, z: int) -> BlockType {
        grid_at(self@, x, y, z)
    }

    /// A fresh grid holding only Air.
    pub fn new_air() -> (r: VoxelData)
        ensures
            r.wf(),
            forall|n: int| 0 <= n < VOXEL_ARRAY_LEN ==> r@[n] == BlockType::Air,
    {
        let mut blocks: Vec<BlockType> = Vec::new();
        let mut n: usize = 0;
        while n < VOXEL_ARRAY_LEN
            invariant
                n == blocks@.len(),
                n <= VOXEL_ARRAY_LEN,
                forall|m: int| 0 <= m < n ==> blocks@[m] == BlockType::Air,
            decreases VOXEL_ARRAY_LEN - n,
        {
            blocks.push(BlockType::Air);
            n = n + 1;
        }
        VoxelData { blocks }
    }

    /// The block at `position`.
    pub fn get_block(&self, position: IVec3) -> (r: BlockType)
        requires
            self.wf(),
            0 <= position.x < PADDED_SIZE,
            0 <= position.y < PADDED_SIZE,
            0 <= position.z < PADDED_SIZE,
        ensures
            r == self.spec_block_at(position.x as int, position.y as int, position.z as int),
    {
        let index = Self::position_to_indexes(position);
        self.blocks[index]
    }

    /// Replace the block at `position`.
    pub fn set_block(&mut self, position: IVec3, block: BlockType)
        requires
            old(self).wf(),
            0 <= position.x < PADDED_SIZE,
            0 <= position.y < PADDED_SIZE,
            0 <= position.z < PADDED_SIZE,
        ensures
            final(self).wf(),
            final(self)@ == old(self)@.update(
                grid_index(position.x as int, position.y as int, position.z as int),
                block,
            ),
    {
        let index = Self::position_to_indexes(position);
        self.blocks.set(index, block);
    }

    fn position_to_indexes(position: IVec3) -> (r: usize)
        requires
            0 <= position.x < PADDED_SIZE,
            0 <= position.y < PADDED_SIZE,
            0 <= position.z < PADDED_SIZE,
        ensures
            r == grid_index(position.x as int, position.y as int, position.z as int),
            r < VOXEL_ARRAY_LEN,
    {
        let x = position.x as usize;
        let y = position.y as usize;
        let z = position.z as usize;
        x + y * PADDED_SIZE + z * PADDED_SIZE * PADDED_SIZE
    }

    /// The block at a face cell of the rotated frame of `axis`.
    pub fn block_at_cell(&self, axis: Axis, i: usize, w: usize, h: usize) -> (r: BlockType)
        requires
            self.wf(),
            i < PADDED_SIZE,
            w < PADDED_SIZE,
            h < PADDED_SIZE,
        ensures
            r == grid_at_cell(self@, axis, i as int, w as int, h as int),
    {
        let (x, y, z) = match axis {
            Axis::X => (i, h, w),
            Axis::Y => (h, i, w),
            Axis::Z => (w, h, i),
        };
        self.blocks[x + y * PADDED_SIZE + z * PADDED_SIZE * PADDED_SIZE]
    }
}

} // verus!

verus! {

impl VoxelData {
    /// Wrap a full grid of blocks.
    pub fn from_blocks(blocks: Vec<BlockType>) -> (r: VoxelData)
        requires
            blocks@.len() == VOXEL_ARRAY_LEN,
        ensures
            r.wf(),
            r@ == blocks@,
    {
        VoxelData { blocks }
    }
}

} // verus!
