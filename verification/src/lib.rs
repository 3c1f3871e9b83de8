//! Core of a streaming voxel terrain engine: block types, level-of-detail
//! chunks, voxel grids, greedy ambient-occlusion meshing, deterministic
//! country (large tile) generation, and the quadtree that refines and
//! coarsens terrain around observers.

use vstd::prelude::*;

pub mod ambient_occlusion;
pub mod block_type;
pub mod chunk_loading;
pub mod chunk_lod;
pub mod country;
pub mod direction;
pub mod mesh_data;
pub mod rng;
pub mod tree_l_system;
pub mod mesh_generation;
pub mod ivec;
pub mod voxel_data;
pub mod voxel_generation;

verus! {

/// Side length of a chunk, in voxels.
pub const CHUNK_SIZE: usize = 64;

/// Side length of a voxel grid: a chunk plus a one-voxel halo on every face.
pub const PADDED_SIZE: usize = 66;

} // verus!
