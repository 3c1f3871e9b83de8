//! The per-observer loader policy: which chunk trees exist around an
//! observer, and which LOD a chunk node should have given the observer's
//! distance from its footprint.

use vstd::prelude::*;

use crate::chunk_lod::{ChunkLod, lod_rank};

verus! {

/// Cell width of a chunk at rank `rank`, `2^(rank - 1)` world voxels.
pub open spec fn rank_multiplier(rank: int) -> int
    decreases rank,
{
    if rank <= 1 {
        1
    } else {
        2 * rank_multiplier(rank - 1)
    }
}

/// The multiplier of every rank from 1 through 8 lies between 1 and 128.
pub proof fn lemma_rank_multiplier_bounds(rank: int)
    requires
        1 <= rank <= 8,
    ensures
        rank_multiplier(rank) == (if rank == 1 {
            1int
        } else if rank == 2 {
            2int
        } else if rank == 3 {
            4int
        } else if rank == 4 {
            8int
        } else if rank == 5 {
            16int
        } else if rank == 6 {
            32int
        } else if rank == 7 {
            64int
        } else {
            128int
        }),
        1 <= rank_multiplier(rank) <= 128,
    decreases rank,
{
    if rank > 1 {
        lemma_rank_multiplier_bounds(rank - 1);
    }
}

/// The squared doubled render distance of rank `rank`: within it a chunk
/// must be refined below that rank. The configured range counts chunks of
/// the rank, each `64 * 2^(rank-1)` voxels wide; distances are kept doubled
/// and squared so the comparison is exact in integers.
pub open spec fn rank_threshold2(ranges: Seq<i64>, rank: int) -> int {
    let t = ranges[rank - 1] * 128 * rank_multiplier(rank);
    t * t
}

/// The LOD rank the policy assigns to a squared doubled distance `d2`,
/// trying ranks from `rank` up: the first rank whose render distance
/// reaches `d2`, or the coarsest rank when none does.
pub open spec fn min_lod_rank_from(ranges: Seq<i64>, d2: int, rank: int) -> int
    decreases 8 - rank,
{
    if rank >= 8 {
        8
    } else if d2 <= rank_threshold2(ranges, rank) {
        rank
    } else {
        min_lod_rank_from(ranges, d2, rank + 1)
    }
}

/// The LOD rank the policy assigns to a squared doubled distance.
pub open spec fn spec_min_lod(ranges: Seq<i64>, d2: int) -> int {
    min_lod_rank_from(ranges, d2, 1)
}

/// An observer's loader configuration: how far chunk trees are created and
/// kept, and the render distance of each LOD, counted in chunks of that
/// LOD.
pub struct ChunkLoader {
    pub load_range: i32,
    pub unload_range: i32,
    pub lod_range: [i64; 7],
}

impl ChunkLoader {
    /// Sane configuration bounds.
    pub open spec fn wf(&self) -> bool {
        &&& 0 <= self.load_range <= 0x10000
        &&& 0 <= self.unload_range <= 0x10000
        &&& forall|n: int| 0 <= n < 7 ==> 0 <= #[trigger] self.lod_range@[n] <= 0x10_0000
    }

    /// The smallest LOD the observer at doubled world position
    /// (`observer_x2`, `observer_z2`) allows for a chunk whose footprint
    /// centre sits at doubled world position (`center_x2`, `center_z2`).
    #[verifier::loop_isolation(false)]
    pub fn get_min_lod_for_chunk(
        &self,
        observer_x2: i64,
        observer_z2: i64,
        center_x2: i64,
        center_z2: i64,
    ) -> (r: ChunkLod)
        requires
            self.wf(),
            -0x1_0000_0000_0000 <= observer_x2 <= 0x1_0000_0000_0000,
            -0x1_0000_0000_0000 <= observer_z2 <= 0x1_0000_0000_0000,
            -0x1_0000_0000_0000 <= center_x2 <= 0x1_0000_0000_0000,
            -0x1_0000_0000_0000 <= center_z2 <= 0x1_0000_0000_0000,
        ensures
            lod_rank(r) == spec_min_lod(
                self.lod_range@,
                (observer_x2 - center_x2) * (observer_x2 - center_x2) + (observer_z2 - center_z2)
                    * (observer_z2 - center_z2),
            ),
    {
        let dx = (observer_x2 as i128) - (center_x2 as i128);
        let dz = (observer_z2 as i128) - (center_z2 as i128);
        proof {
            assert(0 <= dx * dx <= 0x10_0000_0000_0000_0000_0000_0000 && 0 <= dz * dz
                <= 0x10_0000_0000_0000_0000_0000_0000) by (nonlinear_arith)
                requires
                    -0x2_0000_0000_0000 <= dx <= 0x2_0000_0000_0000,
                    -0x2_0000_0000_0000 <= dz <= 0x2_0000_0000_0000,
            ;
        }
        let d2 = dx * dx + dz * dz;
        let ghost d2s = (observer_x2 - center_x2) * (observer_x2 - center_x2) + (observer_z2
            - center_z2) * (observer_z2 - center_z2);
        proof {
            assert(d2 == d2s);
        }
        let mut rank: u8 = 1;
        let mut mult: i128 = 1;
        while rank <= 7
            invariant
                1 <= rank <= 8,
                mult == rank_multiplier(rank as int),
                d2 == d2s,
                0 <= d2,
                spec_min_lod(self.lod_range@, d2s) == min_lod_rank_from(
                    self.lod_range@,
                    d2s,
                    rank as int,
                ),
                self.wf(),
            decreases 8 - rank,
        {
            let range = self.lod_range[(rank - 1) as usize];
            proof {
                lemma_rank_multiplier_bounds(rank as int);
                lemma_rank_multiplier_bounds(rank + 1 as int);
                assert(0 <= range * 128 * mult <= 0x1_0000_0000_0000) by (nonlinear_arith)
                    requires
                        0 <= range <= 0x10_0000,
                        1 <= mult <= 128,
                ;
            }
            let t = (range as i128) * 128 * mult;
            proof {
                assert(0 <= t * t <= 0x1_0000_0000_0000_0000_0000_0000) by (nonlinear_arith)
                    requires
                        0 <= t <= 0x1_0000_0000_0000,
                ;
            }
            if d2 <= t * t {
                proof {
                    assert(t == self.lod_range@[rank - 1] * 128 * rank_multiplier(rank as int));
                    assert(d2s <= rank_threshold2(self.lod_range@, rank as int));
                    assert(min_lod_rank_from(self.lod_range@, d2s, rank as int) == rank as int);
                }
                let r = match ChunkLod::from_u8(rank) {
                    Some(l) => l,
                    None => ChunkLod::Full,
                };
                return r;
            }
            proof {
                assert(!(d2s <= rank_threshold2(self.lod_range@, rank as int)));
                assert(min_lod_rank_from(self.lod_range@, d2s, rank as int) == min_lod_rank_from(
                    self.lod_range@,
                    d2s,
                    rank + 1 as int,
                ));
            }
            mult = mult * 2;
            rank = rank + 1;
        }
        proof {
            assert(min_lod_rank_from(self.lod_range@, d2s, 8) == 8);
        }
        ChunkLod::OneTwentyEight
    }

    /// Whether this loader, standing at tree position (`lx`, `lz`), asks
    /// for the tree at (`tx`, `tz`) to exist: both offsets lie within the
    /// load range.
    pub fn wants_tree(&self, tx: i32, tz: i32, lx: i32, lz: i32) -> (r: bool)
        requires
            self.wf(),
            -0x1000_0000 <= tx <= 0x1000_0000,
            -0x1000_0000 <= tz <= 0x1000_0000,
            -0x1000_0000 <= lx <= 0x1000_0000,
            -0x1000_0000 <= lz <= 0x1000_0000,
        ensures
            r == (-self.load_range <= tx - lx <= self.load_range && -self.load_range <= tz - lz
                <= self.load_range),
    {
        let dx = tx - lx;
        let dz = tz - lz;
        -self.load_range <= dx && dx <= self.load_range && -self.load_range <= dz && dz
            <= self.load_range
    }

    /// Whether this loader, standing at tree position (`lx`, `lz`), keeps
    /// the tree at (`tx`, `tz`) alive: both offsets lie strictly within the
    /// unload range.
    pub fn keeps_tree(&self, tx: i32, tz: i32, lx: i32, lz: i32) -> (r: bool)
        requires
            self.wf(),
            -0x1000_0000 <= tx <= 0x1000_0000,
            -0x1000_0000 <= tz <= 0x1000_0000,
            -0x1000_0000 <= lx <= 0x1000_0000,
            -0x1000_0000 <= lz <= 0x1000_0000,
        ensures
            r == (-self.unload_range < tx - lx < self.unload_range && -self.unload_range < tz - lz
                < self.unload_range),
    {
        let dx = tx - lx;
        let dz = tz - lz;
        -self.unload_range < dx && dx < self.unload_range && -self.unload_range < dz && dz
            < self.unload_range
    }
}

impl Default for ChunkLoader {
    /// The default loader: trees within 8 footprints, kept to 10, and a
    /// render distance of 2 chunks at every LOD.
    fn default() -> (r: ChunkLoader)
        ensures
            r.wf(),
            r.load_range == 8,
            r.unload_range == 10,
            forall|n: int| 0 <= n < 7 ==> #[trigger] r.lod_range@[n] == 2,
    {
        ChunkLoader { load_range: 8, unload_range: 10, lod_range: [2, 2, 2, 2, 2, 2, 2] }
    }
}

} // verus!
