//! Tree generation. An L-system grows a list of entries (position, radius,
//! block kind); a rasterization pass stamps a sphere for each entry into a
//! dense blueprint. All randomness comes from the named word stream, so a
//! tree is a function of its seed.

use vstd::prelude::*;

use crate::block_type::BlockType;
use crate::rng::{SeededRng, rand_word};
use crate::voxel_generation::{Blueprint, BlueprintView};

verus! {

/// Side length of a tree blueprint.
pub const TREE_SIZE: usize = 16;

/// One grown element of a tree: a sphere of `radius` around a position
/// inside the blueprint, of one block kind.
#[derive(Copy, Clone, Debug, PartialEq, Eq, Structural)]
pub struct LSystemEntry {
    pub px: i64,
    pub py: i64,
    pub pz: i64,
    pub radius: i64,
    pub block: BlockType,
}

/// An entry the rasterizer accepts: position and radius small enough that
/// every distance computation stays tiny.
pub open spec fn entry_wf(e: LSystemEntry) -> bool {
    &&& -64 <= e.px <= 64
    &&& -64 <= e.py <= 64
    &&& -64 <= e.pz <= 64
    &&& 0 <= e.radius <= 8
}

/// A straight run of `len` entries starting at (px, py, pz), stepping by
/// (dx, dy, dz), all of one radius and block.
pub open spec fn piece_seq(
    px: int,
    py: int,
    pz: int,
    dx: int,
    dy: int,
    dz: int,
    len: int,
    radius: int,
    block: BlockType,
) -> Seq<LSystemEntry> {
    Seq::new(
        len as nat,
        |i: int|
            LSystemEntry {
                px: (px + dx * i) as i64,
                py: (py + dy * i) as i64,
                pz: (pz + dz * i) as i64,
                radius: radius as i64,
                block,
            },
    )
}

/// Trunk height grown from `tseed`: 5 through 7 voxels.
pub open spec fn trunk_height(tseed: u64) -> int {
    5 + (rand_word(tseed, 0) % 3) as int
}

/// Crown radius grown from `tseed`: 2 or 3 voxels.
pub open spec fn crown_radius(tseed: u64) -> int {
    2 + (rand_word(tseed, 1) % 2) as int
}

/// Number of side branches grown from `tseed`: 0 through 2.
pub open spec fn branch_count(tseed: u64) -> int {
    (rand_word(tseed, 2) % 3) as int
}

/// The x step of branch `b`: the four branch directions cycle through
/// +x, -x, +z, -z.
pub open spec fn branch_dir_x(tseed: u64, b: int) -> int {
    let d = rand_word(tseed, 3 + 2 * b) % 4;
    if d == 0 {
        1
    } else if d == 1 {
        -1
    } else {
        0
    }
}

/// The z step of branch `b`.
pub open spec fn branch_dir_z(tseed: u64, b: int) -> int {
    let d = rand_word(tseed, 3 + 2 * b) % 4;
    if d == 2 {
        1
    } else if d == 3 {
        -1
    } else {
        0
    }
}

/// Length of branch `b`: 2 or 3 entries.
pub open spec fn branch_len(tseed: u64, b: int) -> int {
    2 + (rand_word(tseed, 4 + 2 * b) % 2) as int
}

/// The entries of branch `b`: a straight run of logs leaving the trunk two
/// voxels below its top, with a leaf blob at the tip.
pub open spec fn branch_seq(tseed: u64, b: int) -> Seq<LSystemEntry> {
    let dx = branch_dir_x(tseed, b);
    let dz = branch_dir_z(tseed, b);
    let len = branch_len(tseed, b);
    let y = trunk_height(tseed) - 2;
    piece_seq(8 + dx, y, 8 + dz, dx, 0, dz, len, 1, BlockType::Log).push(
        LSystemEntry {
            px: (8 + dx * (len + 1)) as i64,
            py: y as i64,
            pz: (8 + dz * (len + 1)) as i64,
            radius: 2,
            block: BlockType::Leaf,
        },
    )
}

/// The first `b` branches, in order.
pub open spec fn branches_seq(tseed: u64, b: int) -> Seq<LSystemEntry>
    decreases b,
{
    if b <= 0 {
        Seq::empty()
    } else {
        branches_seq(tseed, b - 1) + branch_seq(tseed, b - 1)
    }
}

/// Every entry a tree grown from `tseed` consists of: the trunk, its leaf
/// crown, then the side branches.
pub open spec fn tree_entries(tseed: u64) -> Seq<LSystemEntry> {
    piece_seq(8, 0, 8, 0, 1, 0, trunk_height(tseed), 1, BlockType::Log).push(
        LSystemEntry {
            px: 8,
            py: trunk_height(tseed) as i64,
            pz: 8,
            radius: crown_radius(tseed) as i64,
            block: BlockType::Leaf,
        },
    ) + branches_seq(tseed, branch_count(tseed))
}

/// The block the entries of `es` leave at blueprint cell (dx, dy, dz): the
/// last entry whose sphere reaches the cell wins; Air when none does.
pub open spec fn entries_block(es: Seq<LSystemEntry>, dx: int, dy: int, dz: int) -> BlockType
    decreases es.len(),
{
    if es.len() == 0 {
        BlockType::Air
    } else {
        let e = es.last();
        if entry_covers(e, dx, dy, dz) {
            e.block
        } else {
            entries_block(es.drop_last(), dx, dy, dz)
        }
    }
}

/// The sphere of entry `e` reaches cell (dx, dy, dz).
pub open spec fn entry_covers(e: LSystemEntry, dx: int, dy: int, dz: int) -> bool {
    (dx - e.px) * (dx - e.px) + (dy - e.py) * (dy - e.py) + (dz - e.pz) * (dz - e.pz) <= e.radius
        * e.radius
}

/// A blueprint holds exactly the tree grown from `tseed`: a cube of
/// `TREE_SIZE` cells, each the rasterized block of the tree's entries.
pub open spec fn blueprint_matches_tree(bp: Blueprint, tseed: u64) -> bool {
    &&& bp.wf()
    &&& bp.size_x == TREE_SIZE
    &&& bp.size_y == TREE_SIZE
    &&& bp.size_z == TREE_SIZE
    &&& forall|dx: int, dy: int, dz: int|
        0 <= dx < TREE_SIZE && 0 <= dy < TREE_SIZE && 0 <= dz < TREE_SIZE
            ==> #[trigger] bp@.blocks[dx + 16 * dy + 256 * dz] == entries_block(
            tree_entries(tseed),
            dx,
            dy,
            dz,
        )
}

fn entries_lookup(es: &Vec<LSystemEntry>, dx: i64, dy: i64, dz: i64) -> (r: BlockType)
    requires
        forall|n: int| 0 <= n < es@.len() ==> entry_wf(#[trigger] es@[n]),
        -64 <= dx <= 64,
        -64 <= dy <= 64,
        -64 <= dz <= 64,
    ensures
        r == entries_block(es@, dx as int, dy as int, dz as int),
{
    let mut n: usize = es.len();
    proof {
        assert(es@.take(n as int) =~= es@);
    }
    while n > 0
        invariant
            n <= es@.len(),
            forall|m: int| 0 <= m < es@.len() ==> entry_wf(#[trigger] es@[m]),
            -64 <= dx <= 64,
            -64 <= dy <= 64,
            -64 <= dz <= 64,
            entries_block(es@, dx as int, dy as int, dz as int) == entries_block(
                es@.take(n as int),
                dx as int,
                dy as int,
                dz as int,
            ),
        decreases n,
    {
        n = n - 1;
        let e = &es[n];
        proof {
            assert(entry_wf(es@[n as int]));
            let pre = es@.take(n + 1 as int);
            assert(pre.last() == es@[n as int]);
            assert(pre.drop_last() =~= es@.take(n as int));
        }
        let ex = dx - e.px;
        let ey = dy - e.py;
        let ez = dz - e.pz;
        proof {
            assert(0 <= ex * ex <= 16384 && 0 <= ey * ey <= 16384 && 0 <= ez * ez <= 16384 && 0
                <= e.radius * e.radius <= 64) by (nonlinear_arith)
                requires
                    -128 <= ex <= 128,
                    -128 <= ey <= 128,
                    -128 <= ez <= 128,
                    0 <= e.radius <= 8,
            ;
        }
        if ex * ex + ey * ey + ez * ez <= e.radius * e.radius {
            return e.block;
        }
    }
    proof {
        assert(es@.take(0) =~= Seq::<LSystemEntry>::empty());
    }
    BlockType::Air
}

/// Append a straight run of entries to `out`.
#[verifier::loop_isolation(false)]
fn push_piece(
    out: &mut Vec<LSystemEntry>,
    px: i64,
    py: i64,
    pz: i64,
    dx: i64,
    dy: i64,
    dz: i64,
    len: u64,
    radius: i64,
    block: BlockType,
)
    requires
        -16 <= px <= 16,
        -16 <= py <= 16,
        -16 <= pz <= 16,
        -1 <= dx <= 1,
        -1 <= dy <= 1,
        -1 <= dz <= 1,
        0 <= len <= 16,
        0 <= radius <= 8,
    ensures
        final(out)@ == old(out)@ + piece_seq(
            px as int,
            py as int,
            pz as int,
            dx as int,
            dy as int,
            dz as int,
            len as int,
            radius as int,
            block,
        ),
        forall|n: int|
            old(out)@.len() <= n < final(out)@.len() ==> entry_wf(#[trigger] final(out)@[n]),
{
    let ghost base = out@;
    let ghost piece = piece_seq(
        px as int,
        py as int,
        pz as int,
        dx as int,
        dy as int,
        dz as int,
        len as int,
        radius as int,
        block,
    );
    let mut i: u64 = 0;
    while i < len
        invariant
            i <= len,
            out@.len() == base.len() + i,
            forall|n: int| 0 <= n < base.len() ==> out@[n] == base[n],
            forall|n: int|
                base.len() <= n < out@.len() ==> out@[n] == piece[n - base.len()] && entry_wf(
                    #[trigger] out@[n],
                ),
        decreases len - i,
    {
        proof {
            assert(-16 <= dx * i <= 16) by (nonlinear_arith)
                requires
                    -1 <= dx <= 1,
                    0 <= i <= 16,
            ;
            assert(-16 <= dy * i <= 16) by (nonlinear_arith)
                requires
                    -1 <= dy <= 1,
                    0 <= i <= 16,
            ;
            assert(-16 <= dz * i <= 16) by (nonlinear_arith)
                requires
                    -1 <= dz <= 1,
                    0 <= i <= 16,
            ;
        }
        out.push(
            LSystemEntry {
                px: px + dx * (i as i64),
                py: py + dy * (i as i64),
                pz: pz + dz * (i as i64),
                radius,
                block,
            },
        );
        i = i + 1;
    }
    proof {
        assert(out@ =~= base + piece);
    }
}

/// Grow the entry list of the tree of `tseed`: the trunk, the crown, then
/// each branch in turn.
#[verifier::loop_isolation(false)]
fn grow_tree_entries(tseed: u64) -> (r: Vec<LSystemEntry>)
    ensures
        r@ == tree_entries(tseed),
        forall|n: int| 0 <= n < r@.len() ==> entry_wf(#[trigger] r@[n]),
{
    let mut rng = SeededRng::from_seed(tseed);
    let trunk = 5 + rng.next_below(3);
    let crown = 2 + rng.next_below(2);
    let branches = rng.next_below(3);
    let mut out: Vec<LSystemEntry> = Vec::new();
    push_piece(&mut out, 8, 0, 8, 0, 1, 0, trunk, 1, BlockType::Log);
    out.push(
        LSystemEntry {
            px: 8,
            py: trunk as i64,
            pz: 8,
            radius: crown as i64,
            block: BlockType::Leaf,
        },
    );
    proof {
        assert(out@ =~= piece_seq(8, 0, 8, 0, 1, 0, trunk_height(tseed), 1, BlockType::Log).push(
            LSystemEntry {
                px: 8,
                py: trunk_height(tseed) as i64,
                pz: 8,
                radius: crown_radius(tseed) as i64,
                block: BlockType::Leaf,
            },
        ));
        assert(branches_seq(tseed, 0) =~= Seq::<LSystemEntry>::empty());
        assert(out@ =~= piece_seq(8, 0, 8, 0, 1, 0, trunk_height(tseed), 1, BlockType::Log).push(
            LSystemEntry {
                px: 8,
                py: trunk_height(tseed) as i64,
                pz: 8,
                radius: crown_radius(tseed) as i64,
                block: BlockType::Leaf,
            },
        ) + branches_seq(tseed, 0));
    }
    let ghost head = out@;
    let mut b: u64 = 0;
    while b < branches
        invariant
            b <= branches,
            rng.seed() == tseed,
            rng.drawn() == 3 + 2 * b,
            out@ == piece_seq(8, 0, 8, 0, 1, 0, trunk_height(tseed), 1, BlockType::Log).push(
                LSystemEntry {
                    px: 8,
                    py: trunk_height(tseed) as i64,
                    pz: 8,
                    radius: crown_radius(tseed) as i64,
                    block: BlockType::Leaf,
                },
            ) + branches_seq(tseed, b as int),
            forall|n: int| 0 <= n < out@.len() ==> entry_wf(#[trigger] out@[n]),
        decreases branches - b,
    {
        let ghost before = out@;
        let d = rng.next_below(4);
        let blen = 2 + rng.next_below(2);
        let bdx: i64 = if d == 0 {
            1
        } else if d == 1 {
            -1
        } else {
            0
        };
        let bdz: i64 = if d == 2 {
            1
        } else if d == 3 {
            -1
        } else {
            0
        };
        let yb = (trunk as i64) - 2;
        push_piece(&mut out, 8 + bdx, yb, 8 + bdz, bdx, 0, bdz, blen, 1, BlockType::Log);
        out.push(
            LSystemEntry {
                px: 8 + bdx * ((blen as i64) + 1),
                py: yb,
                pz: 8 + bdz * ((blen as i64) + 1),
                radius: 2,
                block: BlockType::Leaf,
            },
        );
        proof {
            assert(bdx == branch_dir_x(tseed, b as int));
            assert(bdz == branch_dir_z(tseed, b as int));
            assert(blen == branch_len(tseed, b as int));
            assert(out@ =~= before + branch_seq(tseed, b as int));
            assert(out@ =~= piece_seq(8, 0, 8, 0, 1, 0, trunk_height(tseed), 1, BlockType::Log).push(
                LSystemEntry {
                    px: 8,
                    py: trunk_height(tseed) as i64,
                    pz: 8,
                    radius: crown_radius(tseed) as i64,
                    block: BlockType::Leaf,
                },
            ) + branches_seq(tseed, b + 1 as int));
        }
        b = b + 1;
    }
    out
}

/// Grow the tree of `tseed` and rasterize it into a blueprint: every entry
/// stamps a sphere of its block, later entries over earlier ones.
#[verifier::loop_isolation(false)]
#[verifier::rlimit(100)]
pub fn grow_tree(tseed: u64) -> (r: Blueprint)
    ensures
        blueprint_matches_tree(r, tseed),
{
    let entries = grow_tree_entries(tseed);
    let mut blocks: Vec<BlockType> = Vec::new();
    let mut zi: usize = 0;
    while zi < 16
        invariant
            zi <= 16,
            blocks@.len() == 256 * zi,
            forall|x2: int, y2: int, z2: int|
                0 <= x2 < 16 && 0 <= y2 < 16 && 0 <= z2 < zi ==> #[trigger] blocks@[x2 + 16 * y2
                    + 256 * z2] == entries_block(tree_entries(tseed), x2, y2, z2),
        decreases 16 - zi,
    {
        let mut yi: usize = 0;
        while yi < 16
            invariant
                yi <= 16,
                zi < 16,
                blocks@.len() == 256 * zi + 16 * yi,
                forall|x2: int, y2: int, z2: int|
                    0 <= x2 < 16 && 0 <= y2 < 16 && 0 <= z2 < zi ==> #[trigger] blocks@[x2 + 16 * y2
                        + 256 * z2] == entries_block(tree_entries(tseed), x2, y2, z2),
                forall|x2: int, y2: int|
                    0 <= x2 < 16 && 0 <= y2 < yi ==> #[trigger] blocks@[x2 + 16 * y2 + 256 * zi]
                        == entries_block(tree_entries(tseed), x2, y2, zi as int),
            decreases 16 - yi,
        {
            let mut xi: usize = 0;
            while xi < 16
                invariant
                    xi <= 16,
                    yi < 16,
                    zi < 16,
                    blocks@.len() == 256 * zi + 16 * yi + xi,
                    forall|x2: int, y2: int, z2: int|
                        0 <= x2 < 16 && 0 <= y2 < 16 && 0 <= z2 < zi ==> #[trigger] blocks@[x2 + 16
                            * y2 + 256 * z2] == entries_block(tree_entries(tseed), x2, y2, z2),
                    forall|x2: int, y2: int|
                        0 <= x2 < 16 && 0 <= y2 < yi ==> #[trigger] blocks@[x2 + 16 * y2 + 256 * zi]
                            == entries_block(tree_entries(tseed), x2, y2, zi as int),
                    forall|x2: int|
                        0 <= x2 < xi ==> #[trigger] blocks@[x2 + 16 * yi + 256 * zi]
                            == entries_block(tree_entries(tseed), x2, yi as int, zi as int),
                decreases 16 - xi,
            {
                let block = entries_lookup(&entries, xi as i64, yi as i64, zi as i64);
                blocks.push(block);
                xi = xi + 1;
            }
            yi = yi + 1;
        }
        zi = zi + 1;
    }
    Blueprint { size_x: TREE_SIZE, size_y: TREE_SIZE, size_z: TREE_SIZE, blocks }
}

} // verus!
