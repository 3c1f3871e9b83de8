//! The content of one country tile: a structure placement per cell and the
//! path graphs of the tile and of its two lower neighbours. Everything is a
//! function of the world seed and the tile position.

use vstd::prelude::*;

use crate::block_type::BlockType;
use crate::rng::{SeededRng, rand_word};
use crate::tree_l_system::{blueprint_matches_tree, grow_tree};
use crate::voxel_generation::{Blueprint, StructurePlacement};

verus! {

/// Side length of a country tile in voxels.
pub const COUNTRY_SIZE: usize = 32768;

/// Structure cells per side of a country: the tile is an 8 by 8 grid of
/// cells, each of which holds at most one structure.
pub const STRUCTURE_CELLS: usize = 8;

/// Side length of one structure cell in voxels.
pub const STRUCTURE_CELL_SIZE: usize = 4096;

/// The position of a country tile in the XZ plane, in tile units.
#[derive(Copy, Clone, Debug, PartialEq, Eq, Structural)]
pub struct CountryPosition {
    pub x: i32,
    pub y: i32,
}

/// The seed of the tile at (x, y) of a world seeded by `seed`.
pub open spec fn spec_country_seed(seed: u64, x: i32, y: i32) -> u64 {
    seed ^ (x as u64) ^ ((y as u64) << 17)
}

/// Mix the world seed with a tile position.
pub fn country_seed(seed: u64, pos: CountryPosition) -> (r: u64)
    ensures
        r == spec_country_seed(seed, pos.x, pos.y),
{
    seed ^ (pos.x as u64) ^ ((pos.y as u64) << 17)
}

/// The word stream position where cell `ci` draws its four words.
pub open spec fn cell_words(ci: int) -> int {
    4 * ci
}

/// Whether cell `ci` of the tile holds a structure: three of four cells do.
pub open spec fn cell_occupied(cseed: u64, ci: int) -> bool {
    rand_word(cseed, 4 * ci) % 4 != 0
}

/// World x of the structure of cell `ci`: the cell's corner plus a jitter
/// drawn from the word stream.
pub open spec fn cell_origin_x(cseed: u64, pos: CountryPosition, ci: int) -> int {
    pos.x * 32768 + (ci % 8) * 4096 + (rand_word(cseed, 4 * ci + 1) % 4096) as int
}

/// World z of the structure of cell `ci`.
pub open spec fn cell_origin_z(cseed: u64, pos: CountryPosition, ci: int) -> int {
    pos.y * 32768 + (ci / 8) * 4096 + (rand_word(cseed, 4 * ci + 2) % 4096) as int
}

/// The seed of the tree grown in cell `ci`.
pub open spec fn cell_tree_seed(cseed: u64, ci: int) -> u64 {
    rand_word(cseed, 4 * ci + 3)
}

/// A blueprint that stamps nothing.
pub open spec fn blueprint_empty(bp: Blueprint) -> bool {
    &&& bp.wf()
    &&& bp.size_x == 1
    &&& bp.size_y == 1
    &&& bp.size_z == 1
    &&& bp@.blocks[0] == BlockType::Air
}

/// The placement of cell `ci` carries the cell's jittered origin, stands on
/// the ground height the caller sampled for the cell, and holds the cell's
/// tree when the cell is occupied, else the empty blueprint.
pub open spec fn placement_matches(
    p: StructurePlacement,
    seed: u64,
    pos: CountryPosition,
    ground: Seq<i64>,
    ci: int,
) -> bool {
    let cseed = spec_country_seed(seed, pos.x, pos.y);
    &&& p.origin_x == cell_origin_x(cseed, pos, ci)
    &&& p.origin_z == cell_origin_z(cseed, pos, ci)
    &&& p.origin_y == ground[ci]
    &&& if cell_occupied(cseed, ci) {
        blueprint_matches_tree(p.blueprint, cell_tree_seed(cseed, ci))
    } else {
        blueprint_empty(p.blueprint)
    }
}

/// The structure placements of one country tile, one per cell.
pub struct StructureData {
    pub placements: Vec<StructurePlacement>,
}

/// The structure set of the tile is exactly one placement per cell, each
/// pinned by the word stream of the tile seed.
pub open spec fn structure_data_matches(
    sd: StructureData,
    seed: u64,
    pos: CountryPosition,
    ground: Seq<i64>,
) -> bool {
    &&& sd.placements@.len() == 64
    &&& forall|ci: int|
        0 <= ci < 64 ==> placement_matches(#[trigger] sd.placements@[ci], seed, pos, ground, ci)
    &&& forall|ci: int| 0 <= ci < 64 ==> (#[trigger] sd.placements@[ci]).wf()
}

fn empty_blueprint() -> (r: Blueprint)
    ensures
        blueprint_empty(r),
{
    let mut blocks: Vec<BlockType> = Vec::new();
    blocks.push(BlockType::Air);
    Blueprint { size_x: 1, size_y: 1, size_z: 1, blocks }
}

/// Generate the structure placements of the tile at `pos`: each of the 64
/// cells draws a mask, a jitter and a tree seed from the tile's word
/// stream; occupied cells grow their tree, the rest stay empty. `ground`
/// holds the terrain height the caller sampled for each cell.
#[verifier::loop_isolation(false)]
pub fn generate_structures(seed: u64, pos: CountryPosition, ground: &Vec<i64>) -> (r:
    StructureData)
    requires
        ground@.len() == 64,
        forall|n: int|
            0 <= n < 64 ==> -crate::voxel_generation::HEIGHT_BOUND <= #[trigger] ground@[n]
                <= crate::voxel_generation::HEIGHT_BOUND,
        -0x4000_0000 <= pos.x <= 0x4000_0000,
        -0x4000_0000 <= pos.y <= 0x4000_0000,
    ensures
        structure_data_matches(r, seed, pos, ground@),
{
    let cseed = country_seed(seed, pos);
    let mut rng = SeededRng::from_seed(cseed);
    let mut placements: Vec<StructurePlacement> = Vec::new();
    let mut ci: usize = 0;
    while ci < 64
        invariant
            ci <= 64,
            rng.seed() == cseed,
            rng.drawn() == 4 * ci,
            placements@.len() == ci,
            forall|c2: int|
                0 <= c2 < ci ==> placement_matches(
                    #[trigger] placements@[c2],
                    seed,
                    pos,
                    ground@,
                    c2,
                ) && placements@[c2].wf(),
        decreases 64 - ci,
    {
        let mask = rng.next_below(4);
        let jx = rng.next_below(4096);
        let jz = rng.next_below(4096);
        let tree_seed = rng.next_u64();
        let blueprint = if mask != 0 {
            grow_tree(tree_seed)
        } else {
            empty_blueprint()
        };
        let origin_x = (pos.x as i64) * 32768 + ((ci % 8) as i64) * 4096 + (jx as i64);
        let origin_z = (pos.y as i64) * 32768 + ((ci / 8) as i64) * 4096 + (jz as i64);
        let origin_y = ground[ci];
        placements.push(StructurePlacement { origin_x, origin_y, origin_z, blueprint });
        ci = ci + 1;
    }
    StructureData { placements }
}

/// A vertex of a path graph, in world voxel coordinates.
#[derive(Copy, Clone, Debug, PartialEq, Eq, Structural)]
pub struct PathPoint {
    pub x: i64,
    pub z: i64,
}

/// One cubic Bezier segment of a path, with a precomputed polyline of nine
/// sample points for nearest-point queries.
pub struct PathLine {
    pub p0: PathPoint,
    pub p1: PathPoint,
    pub p2: PathPoint,
    pub p3: PathPoint,
    pub samples: Vec<PathPoint>,
}

/// The path graph of one country tile.
pub struct PathData {
    pub points: Vec<PathPoint>,
    pub lines: Vec<PathLine>,
}

/// The seed of the path stream of a tile.
pub open spec fn spec_path_seed(seed: u64, x: i32, y: i32) -> u64 {
    spec_country_seed(seed, x, y) ^ 0x9E37_79B9_7F4A_7C15
}

/// Local x of path vertex `i`, drawn from the path stream.
pub open spec fn path_point_x(pseed: u64, i: int) -> int {
    (rand_word(pseed, 2 * i) % 32768) as int
}

/// Local z of path vertex `i`.
pub open spec fn path_point_z(pseed: u64, i: int) -> int {
    (rand_word(pseed, 2 * i + 1) % 32768) as int
}

/// One coordinate of a cubic Bezier through a, b, c, d at parameter k of 8,
/// in integer arithmetic.
pub open spec fn bezier_coord(a: int, b: int, c: int, d: int, k: int) -> int {
    ((8 - k) * (8 - k) * (8 - k) * a + 3 * k * (8 - k) * (8 - k) * b + 3 * k * k * (8 - k) * c + k
        * k * k * d) / 512
}

/// Line `j` of the path graph connects vertices `j` and `j + 1`; its two
/// control points sit at the thirds of the chord, and its polyline holds
/// the Bezier at parameters 0 of 8 through 8 of 8.
pub open spec fn line_matches(l: PathLine, pseed: u64, j: int) -> bool {
    &&& l.p0.x == path_point_x(pseed, j) && l.p0.z == path_point_z(pseed, j)
    &&& l.p3.x == path_point_x(pseed, j + 1) && l.p3.z == path_point_z(pseed, j + 1)
    &&& l.p1.x == (2 * l.p0.x + l.p3.x) / 3 && l.p1.z == (2 * l.p0.z + l.p3.z) / 3
    &&& l.p2.x == (l.p0.x + 2 * l.p3.x) / 3 && l.p2.z == (l.p0.z + 2 * l.p3.z) / 3
    &&& l.samples@.len() == 9
    &&& forall|k: int|
        0 <= k < 9 ==> (#[trigger] l.samples@[k]).x == bezier_coord(
            l.p0.x as int,
            l.p1.x as int,
            l.p2.x as int,
            l.p3.x as int,
            k,
        ) && l.samples@[k].z == bezier_coord(l.p0.z as int, l.p1.z as int, l.p2.z as int, l.p3.z as int, k)
}

/// A tile's path graph is four vertices drawn from the path stream, joined
/// by three Bezier segments.
pub open spec fn path_data_matches(pd: PathData, seed: u64, pos: CountryPosition) -> bool {
    let pseed = spec_path_seed(seed, pos.x, pos.y);
    &&& pd.points@.len() == 4
    &&& forall|i: int|
        0 <= i < 4 ==> (#[trigger] pd.points@[i]).x == path_point_x(pseed, i) && pd.points@[i].z
            == path_point_z(pseed, i)
    &&& pd.lines@.len() == 3
    &&& forall|j: int| 0 <= j < 3 ==> line_matches(#[trigger] pd.lines@[j], pseed, j)
}

/// The polyline of the Bezier through the four control points, at the nine
/// parameters 0 of 8 through 8 of 8.
#[verifier::loop_isolation(false)]
fn sample_bezier(p0: PathPoint, p1: PathPoint, p2: PathPoint, p3: PathPoint) -> (r: Vec<PathPoint>)
    requires
        0 <= p0.x < 32768 && 0 <= p0.z < 32768,
        0 <= p1.x < 32768 && 0 <= p1.z < 32768,
        0 <= p2.x < 32768 && 0 <= p2.z < 32768,
        0 <= p3.x < 32768 && 0 <= p3.z < 32768,
    ensures
        r@.len() == 9,
        forall|k: int|
            0 <= k < 9 ==> (#[trigger] r@[k]).x == bezier_coord(
                p0.x as int,
                p1.x as int,
                p2.x as int,
                p3.x as int,
                k,
            ) && r@[k].z == bezier_coord(p0.z as int, p1.z as int, p2.z as int, p3.z as int, k),
{
    let mut samples: Vec<PathPoint> = Vec::new();
    let mut k: i64 = 0;
    while k < 9
        invariant
            0 <= k <= 9,
            samples@.len() == k,
            forall|k2: int|
                0 <= k2 < k ==> (#[trigger] samples@[k2]).x == bezier_coord(
                    p0.x as int,
                    p1.x as int,
                    p2.x as int,
                    p3.x as int,
                    k2,
                ) && samples@[k2].z == bezier_coord(
                    p0.z as int,
                    p1.z as int,
                    p2.z as int,
                    p3.z as int,
                    k2,
                ),
        decreases 9 - k,
    {
        let u = 8 - k;
        proof {
            assert(0 <= u * u <= 64 && 0 <= u * u * u <= 512 && 0 <= u * u * u * p0.x < 512 * 32768
                && 0 <= 3 * k <= 24 && 0 <= 3 * k * u <= 192 && 0 <= 3 * k * u * u <= 1536 && 0 <= 3
                * k * u * u * p1.x < 1536 * 32768 && 0 <= 3 * k * k <= 192 && 0 <= 3 * k * k * u
                <= 1536 && 0 <= 3 * k * k * u * p2.x < 1536 * 32768 && 0 <= k * k <= 64 && 0 <= k
                * k * k <= 512 && 0 <= k * k * k * p3.x < 512 * 32768) by (nonlinear_arith)
                requires
                    0 <= k <= 8,
                    u == 8 - k,
                    0 <= p0.x < 32768,
                    0 <= p1.x < 32768,
                    0 <= p2.x < 32768,
                    0 <= p3.x < 32768,
            ;
            assert(0 <= u * u * u * p0.z < 512 * 32768 && 0 <= 3 * k * u * u * p1.z < 1536 * 32768
                && 0 <= 3 * k * k * u * p2.z < 1536 * 32768 && 0 <= k * k * k * p3.z < 512 * 32768)
                by (nonlinear_arith)
                requires
                    0 <= k <= 8,
                    u == 8 - k,
                    0 <= p0.z < 32768,
                    0 <= p1.z < 32768,
                    0 <= p2.z < 32768,
                    0 <= p3.z < 32768,
            ;
        }
        let nx = u * u * u * p0.x + 3 * k * u * u * p1.x + 3 * k * k * u * p2.x + k * k * k * p3.x;
        let nz = u * u * u * p0.z + 3 * k * u * u * p1.z + 3 * k * k * u * p2.z + k * k * k * p3.z;
        samples.push(PathPoint { x: nx / 512, z: nz / 512 });
        k = k + 1;
    }
    samples
}

/// Generate the path graph of the tile at `pos`: four vertices from the
/// path stream, joined by three Bezier segments with their polylines.
#[verifier::loop_isolation(false)]
pub fn generate_path_data(seed: u64, pos: CountryPosition) -> (r: PathData)
    ensures
        path_data_matches(r, seed, pos),
{
    let pseed = country_seed(seed, pos) ^ 0x9E37_79B9_7F4A_7C15;
    let mut rng = SeededRng::from_seed(pseed);
    let mut points: Vec<PathPoint> = Vec::new();
    let mut i: usize = 0;
    while i < 4
        invariant
            i <= 4,
            rng.seed() == pseed,
            rng.drawn() == 2 * i,
            points@.len() == i,
            forall|i2: int|
                0 <= i2 < i ==> (#[trigger] points@[i2]).x == path_point_x(pseed, i2)
                    && points@[i2].z == path_point_z(pseed, i2) && 0 <= points@[i2].x < 32768 && 0
                    <= points@[i2].z < 32768,
        decreases 4 - i,
    {
        let x = rng.next_below(32768);
        let z = rng.next_below(32768);
        points.push(PathPoint { x: x as i64, z: z as i64 });
        i = i + 1;
    }
    let mut lines: Vec<PathLine> = Vec::new();
    let mut j: usize = 0;
    while j < 3
        invariant
            j <= 3,
            points@.len() == 4,
            forall|i2: int|
                0 <= i2 < 4 ==> (#[trigger] points@[i2]).x == path_point_x(pseed, i2)
                    && points@[i2].z == path_point_z(pseed, i2) && 0 <= points@[i2].x < 32768 && 0
                    <= points@[i2].z < 32768,
            lines@.len() == j,
            forall|j2: int| 0 <= j2 < j ==> line_matches(#[trigger] lines@[j2], pseed, j2),
        decreases 3 - j,
    {
        let p0 = points[j];
        let p3 = points[j + 1];
        let p1 = PathPoint { x: (2 * p0.x + p3.x) / 3, z: (2 * p0.z + p3.z) / 3 };
        let p2 = PathPoint { x: (p0.x + 2 * p3.x) / 3, z: (p0.z + 2 * p3.z) / 3 };
        let samples = sample_bezier(p0, p1, p2, p3);
        lines.push(PathLine { p0, p1, p2, p3, samples });
        j = j + 1;
    }
    PathData { points, lines }
}

/// The content of one country tile: its structure set and the path graphs
/// of the tile itself and of its two lower neighbours, so a chunk near the
/// tile's low edges can query paths that cross over from there.
pub struct CountryData {
    pub country_pos: CountryPosition,
    pub structure_cache: StructureData,
    pub this_path_cache: PathData,
    pub bottom_path_cache: PathData,
    pub left_path_cache: PathData,
}

/// The whole tile content is a function of the world seed, the tile
/// position and the sampled ground heights.
pub open spec fn country_data_matches(
    cd: CountryData,
    seed: u64,
    key: CountryPosition,
    ground: Seq<i64>,
) -> bool {
    &&& cd.country_pos == key
    &&& structure_data_matches(cd.structure_cache, seed, key, ground)
    &&& path_data_matches(cd.this_path_cache, seed, key)
    &&& path_data_matches(
        cd.bottom_path_cache,
        seed,
        CountryPosition { x: (key.x - 1) as i32, y: key.y },
    )
    &&& path_data_matches(
        cd.left_path_cache,
        seed,
        CountryPosition { x: key.x, y: (key.y - 1) as i32 },
    )
}

impl CountryData {
    /// Generate the tile at `key`: structures from the tile's word stream
    /// and standing on the sampled `ground` heights, and the path graphs of
    /// the tile and of its -x and -z neighbours.
    pub fn generate(key: CountryPosition, seed: u64, ground: &Vec<i64>) -> (r: CountryData)
        requires
            ground@.len() == 64,
            forall|n: int|
                0 <= n < 64 ==> -crate::voxel_generation::HEIGHT_BOUND <= #[trigger] ground@[n]
                    <= crate::voxel_generation::HEIGHT_BOUND,
            -0x4000_0000 < key.x <= 0x4000_0000,
            -0x4000_0000 < key.y <= 0x4000_0000,
        ensures
            country_data_matches(r, seed, key, ground@),
    {
        CountryData {
            country_pos: key,
            structure_cache: generate_structures(seed, key, ground),
            this_path_cache: generate_path_data(seed, key),
            bottom_path_cache: generate_path_data(
                seed,
                CountryPosition { x: key.x - 1, y: key.y },
            ),
            left_path_cache: generate_path_data(seed, CountryPosition { x: key.x, y: key.y - 1 }),
        }
    }
}

} // verus!

verus! {

/// Two placements with the same origin and the same blueprint content.
pub open spec fn placement_equiv(p1: StructurePlacement, p2: StructurePlacement) -> bool {
    &&& p1.origin_x == p2.origin_x
    &&& p1.origin_y == p2.origin_y
    &&& p1.origin_z == p2.origin_z
    &&& p1.blueprint.size_x == p2.blueprint.size_x
    &&& p1.blueprint.size_y == p2.blueprint.size_y
    &&& p1.blueprint.size_z == p2.blueprint.size_z
    &&& p1.blueprint.blocks@ == p2.blueprint.blocks@
}

/// Two path graphs with the same vertices and the same segments.
pub open spec fn path_data_equiv(a: PathData, b: PathData) -> bool {
    &&& a.points@ == b.points@
    &&& a.lines@.len() == b.lines@.len()
    &&& forall|j: int|
        0 <= j < a.lines@.len() ==> (#[trigger] a.lines@[j]).p0 == b.lines@[j].p0
            && a.lines@[j].p1 == b.lines@[j].p1 && a.lines@[j].p2 == b.lines@[j].p2
            && a.lines@[j].p3 == b.lines@[j].p3 && a.lines@[j].samples@ == b.lines@[j].samples@
}

proof fn lemma_path_data_deterministic(seed: u64, pos: CountryPosition, a: PathData, b: PathData)
    requires
        path_data_matches(a, seed, pos),
        path_data_matches(b, seed, pos),
    ensures
        path_data_equiv(a, b),
{
    assert forall|i: int| 0 <= i < 4 implies a.points@[i] == b.points@[i] by {
        assert((a.points@[i]).x == (b.points@[i]).x);
        assert((a.points@[i]).z == (b.points@[i]).z);
    }
    assert(a.points@ =~= b.points@);
    assert forall|j: int|
        0 <= j < a.lines@.len() implies (#[trigger] a.lines@[j]).p0 == b.lines@[j].p0
        && a.lines@[j].p1 == b.lines@[j].p1 && a.lines@[j].p2 == b.lines@[j].p2 && a.lines@[j].p3
        == b.lines@[j].p3 && a.lines@[j].samples@ == b.lines@[j].samples@ by {
        assert(line_matches(a.lines@[j], spec_path_seed(seed, pos.x, pos.y), j));
        assert(line_matches(b.lines@[j], spec_path_seed(seed, pos.x, pos.y), j));
        assert forall|k: int|
            0 <= k < 9 implies (a.lines@[j].samples@[k]) == (b.lines@[j].samples@[k]) by {
            assert((a.lines@[j].samples@[k]).x == (b.lines@[j].samples@[k]).x);
            assert((a.lines@[j].samples@[k]).z == (b.lines@[j].samples@[k]).z);
        }
        assert(a.lines@[j].samples@ =~= b.lines@[j].samples@);
    }
}

/// Country generation is deterministic: two tile contents that match the
/// same seed, tile position and ground samples agree placement for
/// placement, vertex for vertex and segment for segment.
pub proof fn lemma_country_generation_deterministic(
    seed: u64,
    key: CountryPosition,
    ground: Seq<i64>,
    c1: CountryData,
    c2: CountryData,
)
    requires
        country_data_matches(c1, seed, key, ground),
        country_data_matches(c2, seed, key, ground),
    ensures
        c1.country_pos == c2.country_pos,
        c1.structure_cache.placements@.len() == c2.structure_cache.placements@.len(),
        forall|ci: int|
            0 <= ci < 64 ==> placement_equiv(
                #[trigger] c1.structure_cache.placements@[ci],
                c2.structure_cache.placements@[ci],
            ),
        path_data_equiv(c1.this_path_cache, c2.this_path_cache),
        path_data_equiv(c1.bottom_path_cache, c2.bottom_path_cache),
        path_data_equiv(c1.left_path_cache, c2.left_path_cache),
{
    let cseed = spec_country_seed(seed, key.x, key.y);
    assert forall|ci: int|
        0 <= ci < 64 implies placement_equiv(
        #[trigger] c1.structure_cache.placements@[ci],
        c2.structure_cache.placements@[ci],
    ) by {
        let p1 = c1.structure_cache.placements@[ci];
        let p2 = c2.structure_cache.placements@[ci];
        assert(placement_matches(p1, seed, key, ground, ci));
        assert(placement_matches(p2, seed, key, ground, ci));
        assert(p1.blueprint.wf() && p2.blueprint.wf());
        assert(p1.blueprint.blocks@.len() == p2.blueprint.blocks@.len());
        if cell_occupied(cseed, ci) {
            assert(p1.blueprint.size_x * p1.blueprint.size_y * p1.blueprint.size_z == 4096)
                by (nonlinear_arith)
                requires
                    p1.blueprint.size_x == 16,
                    p1.blueprint.size_y == 16,
                    p1.blueprint.size_z == 16,
            ;
            assert(p2.blueprint.size_x * p2.blueprint.size_y * p2.blueprint.size_z == 4096)
                by (nonlinear_arith)
                requires
                    p2.blueprint.size_x == 16,
                    p2.blueprint.size_y == 16,
                    p2.blueprint.size_z == 16,
            ;
            assert(p1.blueprint.blocks@.len() == 4096);
            assert forall|n: int| 0 <= n < 4096 implies p1.blueprint.blocks@[n]
                == p2.blueprint.blocks@[n] by {
                let dz = n / 256;
                let dy = (n % 256) / 16;
                let dx = n % 16;
                assert(n == dx + 16 * dy + 256 * dz) by (nonlinear_arith)
                    requires
                        0 <= n < 4096,
                        dz == n / 256,
                        dy == (n % 256) / 16,
                        dx == n % 16,
                ;
                assert(0 <= dx < 16 && 0 <= dy < 16 && 0 <= dz < 16) by (nonlinear_arith)
                    requires
                        0 <= n < 4096,
                        dz == n / 256,
                        dy == (n % 256) / 16,
                        dx == n % 16,
                ;
                assert(p1.blueprint.blocks@[dx + 16 * dy + 256 * dz] == p2.blueprint.blocks@[dx + 16
                    * dy + 256 * dz]);
            }
            assert(p1.blueprint.blocks@ =~= p2.blueprint.blocks@);
        } else {
            assert(p1.blueprint.size_x * p1.blueprint.size_y * p1.blueprint.size_z == 1)
                by (nonlinear_arith)
                requires
                    p1.blueprint.size_x == 1,
                    p1.blueprint.size_y == 1,
                    p1.blueprint.size_z == 1,
            ;
            assert(p2.blueprint.size_x * p2.blueprint.size_y * p2.blueprint.size_z == 1)
                by (nonlinear_arith)
                requires
                    p2.blueprint.size_x == 1,
                    p2.blueprint.size_y == 1,
                    p2.blueprint.size_z == 1,
            ;
            assert(p1.blueprint.blocks@.len() == 1);
            assert(p1.blueprint.blocks@[0] == p2.blueprint.blocks@[0]);
            assert(p1.blueprint.blocks@ =~= p2.blueprint.blocks@);
        }
    }
    lemma_path_data_deterministic(seed, key, c1.this_path_cache, c2.this_path_cache);
    lemma_path_data_deterministic(
        seed,
        CountryPosition { x: (key.x - 1) as i32, y: key.y },
        c1.bottom_path_cache,
        c2.bottom_path_cache,
    );
    lemma_path_data_deterministic(
        seed,
        CountryPosition { x: key.x, y: (key.y - 1) as i32 },
        c1.left_path_cache,
        c2.left_path_cache,
    );
}

} // verus!
