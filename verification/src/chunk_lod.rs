//! Levels of detail. A chunk at LOD `L` covers `2^(L-1)` voxels of world
//! space per grid cell, so one chunk always holds `64^3` cells.

use vstd::prelude::*;

verus! {

/// Level of detail of a chunk, from full resolution up to the coarsest root
/// level of a chunk tree.
#[derive(Copy, Clone, Debug, PartialEq, Eq, Structural)]
pub enum ChunkLod {
    Full,
    Half,
    Quarter,
    Eighth,
    Sixteenth,
    Thirtytwoth,
    Sixtyfourth,
    OneTwentyEight,
    TwoFiftySix,
}

/// Rank of the coarsest LOD.
pub const MAX_LOD_LEVEL: u8 = 8;

/// Numeric rank of a LOD: `Full` is 1, each coarser level one more.
pub open spec fn lod_rank(lod: ChunkLod) -> int {
    match lod {
        ChunkLod::Full => 1,
        ChunkLod::Half => 2,
        ChunkLod::Quarter => 3,
        ChunkLod::Eighth => 4,
        ChunkLod::Sixteenth => 5,
        ChunkLod::Thirtytwoth => 6,
        ChunkLod::Sixtyfourth => 7,
        ChunkLod::OneTwentyEight => 8,
        ChunkLod::TwoFiftySix => 9,
    }
}

/// World-space width of one grid cell at `lod`: `2^(rank - 1)`.
pub open spec fn lod_multiplier(lod: ChunkLod) -> int {
    match lod {
        ChunkLod::Full => 1,
        ChunkLod::Half => 2,
        ChunkLod::Quarter => 4,
        ChunkLod::Eighth => 8,
        ChunkLod::Sixteenth => 16,
        ChunkLod::Thirtytwoth => 32,
        ChunkLod::Sixtyfourth => 64,
        ChunkLod::OneTwentyEight => 128,
        ChunkLod::TwoFiftySix => 256,
    }
}

impl ChunkLod {
    /// The coarsest level, at the root of every chunk tree.
    pub fn max_lod() -> (r: ChunkLod)
        ensures
            lod_rank(r) == MAX_LOD_LEVEL,
    {
        ChunkLod::OneTwentyEight
    }

    /// Rank of this LOD as a `u8`.
    pub fn u8(self) -> (r: u8)
        ensures
            r == lod_rank(self),
    {
        match self {
            ChunkLod::Full => 1,
            ChunkLod::Half => 2,
            ChunkLod::Quarter => 3,
            ChunkLod::Eighth => 4,
            ChunkLod::Sixteenth => 5,
            ChunkLod::Thirtytwoth => 6,
            ChunkLod::Sixtyfourth => 7,
            ChunkLod::OneTwentyEight => 8,
            ChunkLod::TwoFiftySix => 9,
        }
    }

    /// Rank of this LOD as a `usize`.
    pub fn usize(self) -> (r: usize)
        ensures
            r == lod_rank(self),
    {
        self.u8() as usize
    }

    /// Rank of this LOD as a `u32`.
    pub fn u32(self) -> (r: u32)
        ensures
            r == lod_rank(self),
    {
        self.u8() as u32
    }

    /// Rank of this LOD as an `i32`.
    pub fn i32(self) -> (r: i32)
        ensures
            r == lod_rank(self),
    {
        self.u8() as i32
    }

    /// Cell width at this LOD in world voxels: `2^(rank - 1)`.
    pub fn multiplier_i32(self) -> (r: i32)
        ensures
            r == lod_multiplier(self),
    {
        match self {
            ChunkLod::Full => 1,
            ChunkLod::Half => 2,
            ChunkLod::Quarter => 4,
            ChunkLod::Eighth => 8,
            ChunkLod::Sixteenth => 16,
            ChunkLod::Thirtytwoth => 32,
            ChunkLod::Sixtyfourth => 64,
            ChunkLod::OneTwentyEight => 128,
            ChunkLod::TwoFiftySix => 256,
        }
    }

    /// How many chunks of this LOD span one chunk of the coarsest LOD:
    /// `2^(MAX_LOD_LEVEL - rank)`.
    pub fn inverse_multiplier_i32(self) -> (r: i32)
        requires
            lod_rank(self) <= MAX_LOD_LEVEL,
        ensures
            r * lod_multiplier(self) == 128,
            r == 128int / lod_multiplier(self),
    {
        match self {
            ChunkLod::Full => 128,
            ChunkLod::Half => 64,
            ChunkLod::Quarter => 32,
            ChunkLod::Eighth => 16,
            ChunkLod::Sixteenth => 8,
            ChunkLod::Thirtytwoth => 4,
            ChunkLod::Sixtyfourth => 2,
            ChunkLod::OneTwentyEight => 1,
            ChunkLod::TwoFiftySix => 1,
        }
    }

    /// The next finer level. The finest level has none below it.
    pub fn previous(self) -> (r: ChunkLod)
        requires
            self != ChunkLod::Full,
        ensures
            lod_rank(r) == lod_rank(self) - 1,
            lod_multiplier(self) == 2 * lod_multiplier(r),
    {
        match self {
            ChunkLod::Full => ChunkLod::Full,
            ChunkLod::TwoFiftySix => ChunkLod::OneTwentyEight,
            ChunkLod::Half => ChunkLod::Full,
            ChunkLod::Quarter => ChunkLod::Half,
            ChunkLod::Eighth => ChunkLod::Quarter,
            ChunkLod::Sixteenth => ChunkLod::Eighth,
            ChunkLod::Thirtytwoth => ChunkLod::Sixteenth,
            ChunkLod::Sixtyfourth => ChunkLod::Thirtytwoth,
            ChunkLod::OneTwentyEight => ChunkLod::Sixtyfourth,
        }
    }

    /// The LOD of rank `number`, for ranks 1 through 9.
    pub fn from_u8(number: u8) -> (r: Option<ChunkLod>)
        ensures
            1 <= number <= 9 <==> r is Some,
            r is Some ==> lod_rank(r->0) == number,
    {
        match number {
            1 => Some(ChunkLod::Full),
            2 => Some(ChunkLod::Half),
            3 => Some(ChunkLod::Quarter),
            4 => Some(ChunkLod::Eighth),
            5 => Some(ChunkLod::Sixteenth),
            6 => Some(ChunkLod::Thirtytwoth),
            7 => Some(ChunkLod::Sixtyfourth),
            8 => Some(ChunkLod::OneTwentyEight),
            9 => Some(ChunkLod::TwoFiftySix),
            _ => None,
        }
    }
}

} // verus!
