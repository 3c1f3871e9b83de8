//! Voxel generation: fill a padded grid from per-column terrain heights and
//! stamp structure blueprints over it. The whole grid is a function of its
//! inputs, so generation is deterministic.

use vstd::prelude::*;

use crate::block_type::BlockType;
use crate::voxel_data::{VoxelData, VOXEL_ARRAY_LEN, grid_index};

verus! {

/// Largest magnitude of a terrain height; keeps every world coordinate the
/// generator computes well inside `i64`.
pub const HEIGHT_BOUND: i64 = 0x100_0000_0000;

/// Terrain at or above this height is covered with snow instead of grass.
pub const SNOW_LINE: i64 = 128;

/// Number of height samples per side: one per grid column plus one more
/// ring around the padded grid, for slopes of the halo columns.
pub const HEIGHT_GRID_SIZE: usize = 68;

/// Number of height samples of a chunk footprint: `68 * 68`.
pub const HEIGHT_ARRAY_LEN: usize = 4624;

/// The terrain height of the column at grid coordinate (x, z); the samples
/// cover grid coordinates -1 through 66.
pub open spec fn height_at(hs: Seq<i64>, x: int, z: int) -> int {
    hs[(x + 1) + 68 * (z + 1)] as int
}

/// The column at (x, z) is near-horizontal at a cell width of `mult`: each
/// of its four neighbour columns differs by at most one cell width.
pub open spec fn gentle_slope(hs: Seq<i64>, x: int, z: int, mult: int) -> bool {
    let h = height_at(hs, x, z);
    &&& -mult <= height_at(hs, x - 1, z) - h <= mult
    &&& -mult <= height_at(hs, x + 1, z) - h <= mult
    &&& -mult <= height_at(hs, x, z - 1) - h <= mult
    &&& -mult <= height_at(hs, x, z + 1) - h <= mult
}

/// The terrain block of the cell of column (x, z) whose sample sits at
/// world height `wy`: Air above the column height; at the top solid cell
/// snow above the snow line, grass on near-horizontal ground and stone on
/// steep ground; stone below.
pub open spec fn terrain_block(hs: Seq<i64>, x: int, z: int, wy: int, mult: int) -> BlockType {
    let h = height_at(hs, x, z);
    if wy > h {
        BlockType::Air
    } else if h - wy < mult {
        if h >= SNOW_LINE {
            BlockType::Snow
        } else if gentle_slope(hs, x, z, mult) {
            BlockType::Grass
        } else {
            BlockType::Stone
        }
    } else {
        BlockType::Stone
    }
}

/// Terrain heights of one chunk footprint, sampled by the caller one per
/// grid column at the LOD's cell spacing.
pub struct ColumnHeights {
    heights: Vec<i64>,
}

impl ColumnHeights {
    pub closed spec fn view(&self) -> Seq<i64> {
        self.heights@
    }

    pub open spec fn wf(&self) -> bool {
        &&& self@.len() == HEIGHT_ARRAY_LEN
        &&& forall|n: int| 0 <= n < HEIGHT_ARRAY_LEN ==> -HEIGHT_BOUND <= #[trigger] self@[n] <= HEIGHT_BOUND
    }

    /// Wrap a footprint of `68 * 68` bounded height samples.
    pub fn new(heights: Vec<i64>) -> (r: ColumnHeights)
        requires
            heights@.len() == HEIGHT_ARRAY_LEN,
            forall|n: int| 0 <= n < HEIGHT_ARRAY_LEN ==> -HEIGHT_BOUND <= #[trigger] heights@[n] <= HEIGHT_BOUND,
        ensures
            r.wf(),
            r@ == heights@,
    {
        ColumnHeights { heights }
    }

    /// The height of the column at grid coordinate (x, z).
    pub fn get(&self, x: i64, z: i64) -> (r: i64)
        requires
            self.wf(),
            -1 <= x <= 66,
            -1 <= z <= 66,
        ensures
            r == height_at(self@, x as int, z as int),
    {
        let index = ((x + 1) + 68 * (z + 1)) as usize;
        self.heights[index]
    }
}

/// A dense block model of one structure, `size_x * size_y * size_z` voxels
/// in row-major x-then-y-then-z order; Air cells are empty.
pub struct Blueprint {
    pub size_x: usize,
    pub size_y: usize,
    pub size_z: usize,
    pub blocks: Vec<BlockType>,
}

/// The block of blueprint `bp` at offset (dx, dy, dz), Air outside its
/// bounds.
pub open spec fn blueprint_at(bp: BlueprintView, dx: int, dy: int, dz: int) -> BlockType {
    if 0 <= dx < bp.size_x && 0 <= dy < bp.size_y && 0 <= dz < bp.size_z {
        bp.blocks[dx + bp.size_x * dy + bp.size_x * bp.size_y * dz]
    } else {
        BlockType::Air
    }
}

/// The mathematical content of a blueprint.
pub struct BlueprintView {
    pub size_x: int,
    pub size_y: int,
    pub size_z: int,
    pub blocks: Seq<BlockType>,
}

impl Blueprint {
    pub open spec fn view(&self) -> BlueprintView {
        BlueprintView {
            size_x: self.size_x as int,
            size_y: self.size_y as int,
            size_z: self.size_z as int,
            blocks: self.blocks@,
        }
    }

    pub open spec fn wf(&self) -> bool {
        &&& 1 <= self.size_x <= 256
        &&& 1 <= self.size_y <= 256
        &&& 1 <= self.size_z <= 256
        &&& self.blocks@.len() == self.size_x * self.size_y * self.size_z
    }

    /// The block at offset (dx, dy, dz), Air outside the bounds.
    pub fn get(&self, dx: i64, dy: i64, dz: i64) -> (r: BlockType)
        requires
            self.wf(),
        ensures
            r == blueprint_at(self@, dx as int, dy as int, dz as int),
    {
        if 0 <= dx && dx < self.size_x as i64 && 0 <= dy && dy < self.size_y as i64 && 0 <= dz
            && dz < self.size_z as i64 {
            proof {
                assert(dx + self.size_x * dy + self.size_x * self.size_y * dz < self.size_x
                    * self.size_y * self.size_z) by (nonlinear_arith)
                    requires
                        0 <= dx < self.size_x,
                        0 <= dy < self.size_y,
                        0 <= dz < self.size_z,
                ;
                assert(self.size_x * self.size_y * self.size_z <= 256 * 256 * 256) by (nonlinear_arith)
                    requires
                        1 <= self.size_x <= 256,
                        1 <= self.size_y <= 256,
                        1 <= self.size_z <= 256,
                ;
                assert(self.size_x * self.size_y <= 256 * 256) by (nonlinear_arith)
                    requires
                        1 <= self.size_x <= 256,
                        1 <= self.size_y <= 256,
                ;
                assert(self.size_x * dy <= 256 * 256) by (nonlinear_arith)
                    requires
                        1 <= self.size_x <= 256,
                        0 <= dy < 256,
                ;
                assert(0 <= self.size_x * self.size_y * dz <= 256 * 256 * 256) by (nonlinear_arith)
                    requires
                        1 <= self.size_x <= 256,
                        1 <= self.size_y <= 256,
                        0 <= dz < 256,
                ;
            }
            let index = (dx as usize) + self.size_x * (dy as usize) + self.size_x * self.size_y * (
            dz as usize);
            self.blocks[index]
        } else {
            BlockType::Air
        }
    }
}

/// One structure stamped into the world: a blueprint anchored at a world
/// voxel coordinate.
pub struct StructurePlacement {
    pub origin_x: i64,
    pub origin_y: i64,
    pub origin_z: i64,
    pub blueprint: Blueprint,
}

impl StructurePlacement {
    pub open spec fn wf(&self) -> bool {
        &&& self.blueprint.wf()
        &&& -0x4_0000_0000_0000 <= self.origin_x <= 0x4_0000_0000_0000
        &&& -0x4_0000_0000_0000 <= self.origin_y <= 0x4_0000_0000_0000
        &&& -0x4_0000_0000_0000 <= self.origin_z <= 0x4_0000_0000_0000
    }
}

/// The block placement `p` contributes at world voxel (wx, wy, wz).
pub open spec fn placement_block(p: StructurePlacement, wx: int, wy: int, wz: int) -> BlockType {
    blueprint_at(p.blueprint@, wx - p.origin_x, wy - p.origin_y, wz - p.origin_z)
}

/// The block the placements of `ps` leave at world voxel (wx, wy, wz): the
/// last placement with a non-Air voxel there wins; Air when none covers it.
pub open spec fn stamped_block(ps: Seq<StructurePlacement>, wx: int, wy: int, wz: int) -> BlockType
    decreases ps.len(),
{
    if ps.len() == 0 {
        BlockType::Air
    } else {
        let b = placement_block(ps.last(), wx, wy, wz);
        if b != BlockType::Air {
            b
        } else {
            stamped_block(ps.drop_last(), wx, wy, wz)
        }
    }
}

/// The generated block of grid cell (x, yi, z): a non-Air structure voxel
/// at the cell's world sample point, else terrain. `cwx`, `cwz` are the
/// world coordinates of the chunk origin, `base` the world height of grid
/// row 1, `mult` the cell width.
pub open spec fn generated_block(
    hs: Seq<i64>,
    ps: Seq<StructurePlacement>,
    cwx: int,
    cwz: int,
    base: int,
    mult: int,
    x: int,
    yi: int,
    z: int,
) -> BlockType {
    let wx = cwx + (x - 1) * mult;
    let wy = base + (yi - 1) * mult;
    let wz = cwz + (z - 1) * mult;
    let s = stamped_block(ps, wx, wy, wz);
    if s != BlockType::Air {
        s
    } else {
        terrain_block(hs, x, z, wy, mult)
    }
}

#[verifier::loop_isolation(false)]
fn stamped_lookup(ps: &Vec<StructurePlacement>, wx: i64, wy: i64, wz: i64) -> (r: BlockType)
    requires
        forall|n: int| 0 <= n < ps@.len() ==> (#[trigger] ps@[n]).wf(),
        -0x7000_0000_0000_0000 <= wx <= 0x7000_0000_0000_0000,
        -0x7000_0000_0000_0000 <= wy <= 0x7000_0000_0000_0000,
        -0x7000_0000_0000_0000 <= wz <= 0x7000_0000_0000_0000,
    ensures
        r == stamped_block(ps@, wx as int, wy as int, wz as int),
{
    let mut n: usize = ps.len();
    proof {
        assert(ps@.take(n as int) =~= ps@);
    }
    while n > 0
        invariant
            n <= ps@.len(),
            stamped_block(ps@, wx as int, wy as int, wz as int) == stamped_block(
                ps@.take(n as int),
                wx as int,
                wy as int,
                wz as int,
            ),
        decreases n,
    {
        n = n - 1;
        let p = &ps[n];
        proof {
            assert(ps@[n as int].wf());
        }
        let b = p.blueprint.get(wx - p.origin_x, wy - p.origin_y, wz - p.origin_z);
        proof {
            let pre = ps@.take(n + 1 as int);
            assert(pre.last() == ps@[n as int]);
            assert(pre.drop_last() =~= ps@.take(n as int));
        }
        if b != BlockType::Air {
            return b;
        }
    }
    proof {
        assert(ps@.take(0) =~= Seq::<StructurePlacement>::empty());
    }
    BlockType::Air
}

fn terrain_block_exec(heights: &ColumnHeights, x: i64, z: i64, wy: i64, mult: i64) -> (r: BlockType)
    requires
        heights.wf(),
        0 <= x <= 65,
        0 <= z <= 65,
        -0x7000_0000_0000_0000 <= wy <= 0x7000_0000_0000_0000,
        1 <= mult <= 256,
    ensures
        r == terrain_block(heights@, x as int, z as int, wy as int, mult as int),
{
    let h = heights.get(x, z);
    if wy > h {
        BlockType::Air
    } else if h - wy < mult {
        if h >= SNOW_LINE {
            BlockType::Snow
        } else {
            let hxm = heights.get(x - 1, z);
            let hxp = heights.get(x + 1, z);
            let hzm = heights.get(x, z - 1);
            let hzp = heights.get(x, z + 1);
            if -mult <= hxm - h && hxm - h <= mult && -mult <= hxp - h && hxp - h <= mult && -mult
                <= hzm - h && hzm - h <= mult && -mult <= hzp - h && hzp - h <= mult {
                BlockType::Grass
            } else {
                BlockType::Stone
            }
        }
    } else {
        BlockType::Stone
    }
}

} // verus!

verus! {

fn generated_block_exec(
    heights: &ColumnHeights,
    placements: &Vec<StructurePlacement>,
    cwx: i64,
    cwz: i64,
    base: i64,
    mult: i64,
    x: usize,
    yi: usize,
    z: usize,
) -> (r: BlockType)
    requires
        heights.wf(),
        forall|n: int| 0 <= n < placements@.len() ==> (#[trigger] placements@[n]).wf(),
        1 <= mult <= 256,
        x < 66,
        yi < 66,
        z < 66,
        -0x1_0000_0000_0000 <= cwx <= 0x1_0000_0000_0000,
        -0x1_0000_0000_0000 <= cwz <= 0x1_0000_0000_0000,
        -0x100_0000_0000_0000 <= base <= 0x100_0000_0000_0000,
    ensures
        r == generated_block(
            heights@,
            placements@,
            cwx as int,
            cwz as int,
            base as int,
            mult as int,
            x as int,
            yi as int,
            z as int,
        ),
{
    proof {
        assert(-256 <= (x - 1) * mult <= 65 * 256) by (nonlinear_arith)
            requires
                0 <= x < 66,
                1 <= mult <= 256,
        ;
        assert(-256 <= (yi - 1) * mult <= 65 * 256) by (nonlinear_arith)
            requires
                0 <= yi < 66,
                1 <= mult <= 256,
        ;
        assert(-256 <= (z - 1) * mult <= 65 * 256) by (nonlinear_arith)
            requires
                0 <= z < 66,
                1 <= mult <= 256,
        ;
    }
    let wx = cwx + ((x as i64) - 1) * mult;
    let wy = base + ((yi as i64) - 1) * mult;
    let wz = cwz + ((z as i64) - 1) * mult;
    let s = stamped_lookup(placements, wx, wy, wz);
    if s != BlockType::Air {
        s
    } else {
        terrain_block_exec(heights, x as i64, z as i64, wy, mult)
    }
}

/// What `generate_voxels` promises of a result (grid contents, minimum
/// height, extends-above flag) for its inputs: the minimum height is the
/// least height of the padded footprint, every cell holds exactly the
/// generated block of its world sample point, and the flag says whether any
/// interior column rises past the top of the grid.
pub open spec fn voxel_result_matches(
    hs: Seq<i64>,
    ps: Seq<StructurePlacement>,
    chunk_x: int,
    chunk_z: int,
    stack: int,
    mult: int,
    grid: Seq<BlockType>,
    minh: int,
    above: bool,
) -> bool {
    let cwx = chunk_x * 64 * mult;
    let cwz = chunk_z * 64 * mult;
    let base = minh + stack * 64 * mult;
    &&& grid.len() == VOXEL_ARRAY_LEN
    &&& forall|x: int, z: int| 0 <= x < 66 && 0 <= z < 66 ==> minh <= #[trigger] height_at(hs, x, z)
    &&& exists|x: int, z: int| 0 <= x < 66 && 0 <= z < 66 && minh == #[trigger] height_at(hs, x, z)
    &&& forall|x: int, yi: int, z: int|
        0 <= x < 66 && 0 <= yi < 66 && 0 <= z < 66 ==> #[trigger] grid[grid_index(x, yi, z)]
            == generated_block(hs, ps, cwx, cwz, base, mult, x, yi, z)
    &&& above == exists|x: int, z: int|
        1 <= x <= 64 && 1 <= z <= 64 && #[trigger] height_at(hs, x, z) >= base + 64 * mult
}

/// Fill the padded voxel grid of the chunk at (`chunk_x`, `chunk_z`),
/// vertical slab `stack`, from the footprint's terrain heights, and stamp
/// the structure placements over the terrain. Returns the grid, the least
/// height of the footprint (the world height of grid row 1) and whether
/// terrain of the chunk's own columns extends above the grid.
#[verifier::loop_isolation(false)]
#[verifier::rlimit(100)]
pub fn generate_voxels(
    chunk_x: i64,
    chunk_z: i64,
    stack: i64,
    lod: crate::chunk_lod::ChunkLod,
    heights: &ColumnHeights,
    placements: &Vec<StructurePlacement>,
) -> (r: (VoxelData, i64, bool))
    requires
        heights.wf(),
        forall|n: int| 0 <= n < placements@.len() ==> (#[trigger] placements@[n]).wf(),
        -0x8000_0000 <= chunk_x <= 0x8000_0000,
        -0x8000_0000 <= chunk_z <= 0x8000_0000,
        -HEIGHT_BOUND <= stack <= HEIGHT_BOUND,
    ensures
        r.0.wf(),
        voxel_result_matches(
            heights@,
            placements@,
            chunk_x as int,
            chunk_z as int,
            stack as int,
            crate::chunk_lod::lod_multiplier(lod),
            r.0@,
            r.1 as int,
            r.2,
        ),
        -HEIGHT_BOUND <= r.1 <= HEIGHT_BOUND,
{
    let ghost hs = heights@;
    let mult = lod.multiplier_i32() as i64;
    proof {
        assert(1 <= crate::chunk_lod::lod_multiplier(lod) <= 256);
    }
    // least height of the padded footprint
    let mut minh: i64 = heights.get(0, 0);
    let mut z: i64 = 0;
    while z < 66
        invariant
            0 <= z <= 66,
            -HEIGHT_BOUND <= minh <= HEIGHT_BOUND,
            forall|x2: int, z2: int|
                0 <= x2 < 66 && 0 <= z2 < z ==> minh <= #[trigger] height_at(hs, x2, z2),
            exists|x2: int, z2: int|
                0 <= x2 < 66 && 0 <= z2 < 66 && minh == #[trigger] height_at(hs, x2, z2),
        decreases 66 - z,
    {
        let mut x: i64 = 0;
        while x < 66
            invariant
                0 <= x <= 66,
                0 <= z < 66,
                -HEIGHT_BOUND <= minh <= HEIGHT_BOUND,
                forall|x2: int, z2: int|
                    0 <= x2 < 66 && 0 <= z2 < z ==> minh <= #[trigger] height_at(hs, x2, z2),
                forall|x2: int| 0 <= x2 < x ==> minh <= #[trigger] height_at(hs, x2, z as int),
                exists|x2: int, z2: int|
                    0 <= x2 < 66 && 0 <= z2 < 66 && minh == #[trigger] height_at(hs, x2, z2),
            decreases 66 - x,
        {
            let h = heights.get(x, z);
            if h < minh {
                minh = h;
            }
            x = x + 1;
        }
        z = z + 1;
    }
    proof {
        assert(-0x40_0000_0000_0000 <= stack * 64 * mult <= 0x40_0000_0000_0000)
            by (nonlinear_arith)
            requires
                -HEIGHT_BOUND <= stack <= HEIGHT_BOUND,
                1 <= mult <= 256,
        ;
    }
    proof {
        assert(-0x40_0000_0000_0000 <= stack * 64 * mult <= 0x40_0000_0000_0000)
            by (nonlinear_arith)
            requires
                -HEIGHT_BOUND <= stack <= HEIGHT_BOUND,
                1 <= mult <= 256,
        ;
    }
    let base = minh + stack * 64 * mult;
    // does any interior column rise past the top of the grid?
    let mut above = false;
    let mut z: i64 = 1;
    while z <= 64
        invariant
            1 <= z <= 65,
            above == exists|x2: int, z2: int|
                1 <= x2 <= 64 && 1 <= z2 < z && #[trigger] height_at(hs, x2, z2) >= base + 64
                    * mult,
        decreases 65 - z,
    {
        let mut x: i64 = 1;
        while x <= 64
            invariant
                1 <= x <= 65,
                1 <= z <= 64,
                above == ((exists|x2: int, z2: int|
                    1 <= x2 <= 64 && 1 <= z2 < z && #[trigger] height_at(hs, x2, z2) >= base + 64
                        * mult) || (exists|x2: int|
                    1 <= x2 < x && #[trigger] height_at(hs, x2, z as int) >= base + 64 * mult)),
            decreases 65 - x,
        {
            let h = heights.get(x, z);
            if h >= base + 64 * mult {
                above = true;
                proof {
                    assert(height_at(hs, x as int, z as int) >= base + 64 * mult);
                }
            }
            x = x + 1;
        }
        proof {
            let full_row = exists|x2: int|
                1 <= x2 < 65 && #[trigger] height_at(hs, x2, z as int) >= base + 64 * mult;
            let upto = exists|x2: int, z2: int|
                1 <= x2 <= 64 && 1 <= z2 < z && #[trigger] height_at(hs, x2, z2) >= base + 64
                    * mult;
            let next = exists|x2: int, z2: int|
                1 <= x2 <= 64 && 1 <= z2 < z + 1 && #[trigger] height_at(hs, x2, z2) >= base + 64
                    * mult;
            if upto {
                let (xa, za): (int, int) = choose|x2: int, z2: int|
                    1 <= x2 <= 64 && 1 <= z2 < z && #[trigger] height_at(hs, x2, z2) >= base + 64
                        * mult;
                assert(height_at(hs, xa, za) >= base + 64 * mult);
                assert(next);
            }
            if full_row {
                let xa: int = choose|x2: int|
                    1 <= x2 < 65 && #[trigger] height_at(hs, x2, z as int) >= base + 64 * mult;
                assert(height_at(hs, xa, z as int) >= base + 64 * mult);
                assert(next);
            }
            if next {
                let (xa, za): (int, int) = choose|x2: int, z2: int|
                    1 <= x2 <= 64 && 1 <= z2 < z + 1 && #[trigger] height_at(hs, x2, z2) >= base
                        + 64 * mult;
                if za < z {
                    assert(upto);
                } else {
                    assert(height_at(hs, xa, z as int) >= base + 64 * mult);
                    assert(full_row);
                }
            }
        }
        z = z + 1;
    }
    // fill the grid cell by cell in index order
    proof {
        assert(-0x1_0000_0000_0000 <= chunk_x * 64 * mult <= 0x1_0000_0000_0000)
            by (nonlinear_arith)
            requires
                -0x8000_0000 <= chunk_x <= 0x8000_0000,
                1 <= mult <= 256,
        ;
        assert(-0x1_0000_0000_0000 <= chunk_z * 64 * mult <= 0x1_0000_0000_0000)
            by (nonlinear_arith)
            requires
                -0x8000_0000 <= chunk_z <= 0x8000_0000,
                1 <= mult <= 256,
        ;
    }
    let cwx = chunk_x * 64 * mult;
    let cwz = chunk_z * 64 * mult;
    let ghost ps = placements@;
    let mut blocks: Vec<BlockType> = Vec::new();
    let mut zi: usize = 0;
    while zi < 66
        invariant
            zi <= 66,
            blocks@.len() == 4356 * zi,
            forall|x2: int, y2: int, z2: int|
                0 <= x2 < 66 && 0 <= y2 < 66 && 0 <= z2 < zi ==> #[trigger] blocks@[grid_index(
                    x2,
                    y2,
                    z2,
                )] == generated_block(
                    hs,
                    ps,
                    cwx as int,
                    cwz as int,
                    base as int,
                    mult as int,
                    x2,
                    y2,
                    z2,
                ),
        decreases 66 - zi,
    {
        let mut yi: usize = 0;
        while yi < 66
            invariant
                yi <= 66,
                zi < 66,
                blocks@.len() == 4356 * zi + 66 * yi,
                forall|x2: int, y2: int, z2: int|
                    0 <= x2 < 66 && 0 <= y2 < 66 && 0 <= z2 < zi ==> #[trigger] blocks@[grid_index(
                        x2,
                        y2,
                        z2,
                    )] == generated_block(
                        hs,
                        ps,
                        cwx as int,
                        cwz as int,
                        base as int,
                        mult as int,
                        x2,
                        y2,
                        z2,
                    ),
                forall|x2: int, y2: int|
                    0 <= x2 < 66 && 0 <= y2 < yi ==> #[trigger] blocks@[grid_index(
                        x2,
                        y2,
                        zi as int,
                    )] == generated_block(
                        hs,
                        ps,
                        cwx as int,
                        cwz as int,
                        base as int,
                        mult as int,
                        x2,
                        y2,
                        zi as int,
                    ),
            decreases 66 - yi,
        {
            let mut xi: usize = 0;
            while xi < 66
                invariant
                    xi <= 66,
                    yi < 66,
                    zi < 66,
                    blocks@.len() == 4356 * zi + 66 * yi + xi,
                    forall|x2: int, y2: int, z2: int|
                        0 <= x2 < 66 && 0 <= y2 < 66 && 0 <= z2 < zi ==> #[trigger] blocks@[grid_index(
                            x2,
                            y2,
                            z2,
                        )] == generated_block(
                            hs,
                            ps,
                            cwx as int,
                            cwz as int,
                            base as int,
                            mult as int,
                            x2,
                            y2,
                            z2,
                        ),
                    forall|x2: int, y2: int|
                        0 <= x2 < 66 && 0 <= y2 < yi ==> #[trigger] blocks@[grid_index(
                            x2,
                            y2,
                            zi as int,
                        )] == generated_block(
                            hs,
                            ps,
                            cwx as int,
                            cwz as int,
                            base as int,
                            mult as int,
                            x2,
                            y2,
                            zi as int,
                        ),
                    forall|x2: int|
                        0 <= x2 < xi ==> #[trigger] blocks@[grid_index(x2, yi as int, zi as int)]
                            == generated_block(
                            hs,
                            ps,
                            cwx as int,
                            cwz as int,
                            base as int,
                            mult as int,
                            x2,
                            yi as int,
                            zi as int,
                        ),
                decreases 66 - xi,
            {
                let b = generated_block_exec(
                    heights,
                    placements,
                    cwx,
                    cwz,
                    base,
                    mult,
                    xi,
                    yi,
                    zi,
                );
                blocks.push(b);
                xi = xi + 1;
            }
            yi = yi + 1;
        }
        zi = zi + 1;
    }
    let voxel_data = VoxelData::from_blocks(blocks);
    (voxel_data, minh, above)
}

/// Voxel generation is deterministic: two results that both satisfy the
/// generator's contract for the same inputs are equal, grid for grid.
pub proof fn lemma_voxel_generation_deterministic(
    hs: Seq<i64>,
    ps: Seq<StructurePlacement>,
    chunk_x: int,
    chunk_z: int,
    stack: int,
    mult: int,
    g1: Seq<BlockType>,
    m1: int,
    a1: bool,
    g2: Seq<BlockType>,
    m2: int,
    a2: bool,
)
    requires
        voxel_result_matches(hs, ps, chunk_x, chunk_z, stack, mult, g1, m1, a1),
        voxel_result_matches(hs, ps, chunk_x, chunk_z, stack, mult, g2, m2, a2),
    ensures
        g1 == g2,
        m1 == m2,
        a1 == a2,
{
    let (x1, z1): (int, int) = choose|x: int, z: int|
        0 <= x < 66 && 0 <= z < 66 && m1 == #[trigger] height_at(hs, x, z);
    let (x2, z2): (int, int) = choose|x: int, z: int|
        0 <= x < 66 && 0 <= z < 66 && m2 == #[trigger] height_at(hs, x, z);
    assert(m2 <= height_at(hs, x1, z1));
    assert(m1 <= height_at(hs, x2, z2));
    assert(m1 == m2);
    assert forall|n: int| 0 <= n < VOXEL_ARRAY_LEN implies g1[n] == g2[n] by {
        let z = n / 4356;
        let y = (n % 4356) / 66;
        let x = n % 66;
        assert(n == x + 66 * y + 4356 * z) by (nonlinear_arith)
            requires
                0 <= n < 287496,
                z == n / 4356,
                y == (n % 4356) / 66,
                x == n % 66,
        ;
        assert(0 <= x < 66 && 0 <= y < 66 && 0 <= z < 66) by (nonlinear_arith)
            requires
                0 <= n < 287496,
                z == n / 4356,
                y == (n % 4356) / 66,
                x == n % 66,
        ;
        assert(g1[grid_index(x, y, z)] == g2[grid_index(x, y, z)]);
    }
    assert(g1 =~= g2);
}

/// Chunks agree where their footprints overlap: when two footprints give
/// the same heights to the same world columns, and two cells of the two
/// grids sample the same world voxel, the generated blocks are equal. The
/// halo of a chunk therefore matches the interior of its neighbours, so
/// terrain is seamless across chunk borders at one LOD.
pub proof fn lemma_voxel_generation_seamless(
    hs1: Seq<i64>,
    hs2: Seq<i64>,
    ps: Seq<StructurePlacement>,
    cwx1: int,
    cwz1: int,
    base1: int,
    x1: int,
    yi1: int,
    z1: int,
    cwx2: int,
    cwz2: int,
    base2: int,
    x2: int,
    yi2: int,
    z2: int,
    mult: int,
)
    requires
        cwx1 + (x1 - 1) * mult == cwx2 + (x2 - 1) * mult,
        cwz1 + (z1 - 1) * mult == cwz2 + (z2 - 1) * mult,
        base1 + (yi1 - 1) * mult == base2 + (yi2 - 1) * mult,
        height_at(hs1, x1, z1) == height_at(hs2, x2, z2),
        height_at(hs1, x1 - 1, z1) == height_at(hs2, x2 - 1, z2),
        height_at(hs1, x1 + 1, z1) == height_at(hs2, x2 + 1, z2),
        height_at(hs1, x1, z1 - 1) == height_at(hs2, x2, z2 - 1),
        height_at(hs1, x1, z1 + 1) == height_at(hs2, x2, z2 + 1),
    ensures
        generated_block(hs1, ps, cwx1, cwz1, base1, mult, x1, yi1, z1) == generated_block(
            hs2,
            ps,
            cwx2,
            cwz2,
            base2,
            mult,
            x2,
            yi2,
            z2,
        ),
{
}

} // verus!
