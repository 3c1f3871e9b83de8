//! Greedy meshing. For each of the six face directions the grid is scanned
//! slice by slice; visible faces of the same block and the same ambient
//! occlusion are merged into maximal rectangles. The emitted quads cover
//! exactly the visible faces and never overlap.

use vstd::prelude::*;

use crate::ambient_occlusion::{AmbiantOcclusion, ao_at};
use crate::block_type::{BlockType, spec_is_covering_for};
use crate::direction::{Axis, dir_step};
use crate::voxel_data::{VoxelData, grid_at_cell};

verus! {

/// One merged rectangle of faces, in the rotated frame of its direction:
/// `width` cells along the width axis starting at `w0`, `height` cells along
/// the height axis starting at `h0`, in slice `slice`.
#[derive(Copy, Clone, Debug, PartialEq, Eq, Structural)]
pub struct Quad {
    pub axis: Axis,
    pub positive: bool,
    pub slice: usize,
    pub w0: usize,
    pub h0: usize,
    pub width: usize,
    pub height: usize,
    pub block: BlockType,
    pub ao: AmbiantOcclusion,
}

/// Valid coordinates of a face cell: the interior of the chunk.
pub open spec fn in_face_range(i: int, w: int, h: int) -> bool {
    1 <= i <= 64 && 1 <= w <= 64 && 1 <= h <= 64
}

/// A face of the cell at (slice `i`, width `w`, height `h`) looking along
/// (`axis`, `positive`) is visible: its block belongs to the meshed set and
/// the neighbour it looks at does not cover it.
pub open spec fn face_visible(
    g: Seq<BlockType>,
    bs: Seq<BlockType>,
    axis: Axis,
    positive: bool,
    i: int,
    w: int,
    h: int,
) -> bool {
    let b = grid_at_cell(g, axis, i, w, h);
    bs.contains(b) && !spec_is_covering_for(grid_at_cell(g, axis, i + dir_step(positive), w, h), b)
}

/// The face cell (direction, slice `i`, width `w`, height `h`) lies inside
/// quad `q`.
pub open spec fn cell_in_quad(q: Quad, axis: Axis, positive: bool, i: int, w: int, h: int) -> bool {
    &&& q.axis == axis
    &&& q.positive == positive
    &&& q.slice == i
    &&& q.w0 <= w < q.w0 + q.width
    &&& q.h0 <= h < q.h0 + q.height
}

/// The bounds of a quad are inside the chunk.
pub open spec fn quad_bounds(q: Quad) -> bool {
    &&& 1 <= q.slice <= 64
    &&& 1 <= q.w0 && q.width >= 1 && q.w0 + q.width <= 65
    &&& 1 <= q.h0 && q.height >= 1 && q.h0 + q.height <= 65
}

/// A quad is well-formed for grid `g` and block set `bs`: its bounds are
/// inside the chunk, and every cell it covers is a visible face of the
/// quad's block with the quad's ambient occlusion.
pub open spec fn quad_wf(g: Seq<BlockType>, bs: Seq<BlockType>, q: Quad) -> bool {
    &&& quad_bounds(q)
    &&& forall|w: int, h: int|
        #![trigger cell_in_quad(q, q.axis, q.positive, q.slice as int, w, h)]
        cell_in_quad(q, q.axis, q.positive, q.slice as int, w, h) ==> {
            &&& face_visible(g, bs, q.axis, q.positive, q.slice as int, w, h)
            &&& grid_at_cell(g, q.axis, q.slice as int, w, h) == q.block
            &&& ao_at(g, q.axis, q.positive, q.slice as int, w, h) == q.ao
        }
}

/// Some quad of `qs` covers the face cell.
pub open spec fn covered(
    qs: Seq<Quad>,
    axis: Axis,
    positive: bool,
    i: int,
    w: int,
    h: int,
) -> bool {
    exists|n: int| 0 <= n < qs.len() && #[trigger] cell_in_quad(qs[n], axis, positive, i, w, h)
}

/// No face cell lies inside two different quads of `qs`.
pub open spec fn quads_disjoint(qs: Seq<Quad>) -> bool {
    forall|m: int, n: int, axis: Axis, positive: bool, i: int, w: int, h: int|
        0 <= m < qs.len() && 0 <= n < qs.len() && m != n && #[trigger] cell_in_quad(
            qs[m],
            axis,
            positive,
            i,
            w,
            h,
        ) ==> !#[trigger] cell_in_quad(qs[n], axis, positive, i, w, h)
}

/// Every quad of `qs` is a well-formed quad of its own direction.
pub open spec fn quads_wf(g: Seq<BlockType>, bs: Seq<BlockType>, qs: Seq<Quad>) -> bool {
    forall|n: int| 0 <= n < qs.len() ==> quad_wf(g, bs, #[trigger] qs[n])
}

/// Every visible face of every direction is covered by a quad of `qs`.
pub open spec fn quads_complete(g: Seq<BlockType>, bs: Seq<BlockType>, qs: Seq<Quad>) -> bool {
    forall|axis: Axis, positive: bool, i: int, w: int, h: int|
        in_face_range(i, w, h) && #[trigger] face_visible(g, bs, axis, positive, i, w, h)
            ==> covered(qs, axis, positive, i, w, h)
}

/// Every visible face of one direction is covered by a quad of `qs`.
pub open spec fn quads_complete_dir(
    g: Seq<BlockType>,
    bs: Seq<BlockType>,
    qs: Seq<Quad>,
    axis: Axis,
    positive: bool,
) -> bool {
    forall|i: int, w: int, h: int|
        in_face_range(i, w, h) && #[trigger] face_visible(g, bs, axis, positive, i, w, h)
            ==> covered(qs, axis, positive, i, w, h)
}

/// The mark at width `w`, height `h` of the per-slice visited grid.
pub open spec fn done_at(d: Seq<bool>, w: int, h: int) -> bool {
    d[(w - 1) + 64 * (h - 1)]
}

/// The visited grid of the current slice marks exactly the cells that some
/// quad of `qs` covers in slice `i`.
pub open spec fn done_matches(
    d: Seq<bool>,
    qs: Seq<Quad>,
    axis: Axis,
    positive: bool,
    i: int,
) -> bool {
    forall|w: int, h: int|
        1 <= w <= 64 && 1 <= h <= 64 ==> (#[trigger] done_at(d, w, h) <==> covered(
            qs,
            axis,
            positive,
            i,
            w,
            h,
        ))
}

/// A cell the greedy expansion may still take: unvisited, visible, of the
/// same block and the same ambient occlusion as the rectangle being grown.
pub open spec fn cell_ok(
    g: Seq<BlockType>,
    bs: Seq<BlockType>,
    d: Seq<bool>,
    axis: Axis,
    positive: bool,
    i: int,
    w: int,
    h: int,
    b: BlockType,
    ao: AmbiantOcclusion,
) -> bool {
    &&& !done_at(d, w, h)
    &&& face_visible(g, bs, axis, positive, i, w, h)
    &&& grid_at_cell(g, axis, i, w, h) == b
    &&& ao_at(g, axis, positive, i, w, h) == ao
}

/// True iff `b` is one of `blocks`.
pub fn contains_block(blocks: &[BlockType], b: BlockType) -> (r: bool)
    ensures
        r == blocks@.contains(b),
{
    let mut n: usize = 0;
    while n < blocks.len()
        invariant
            n <= blocks@.len(),
            forall|m: int| 0 <= m < n ==> blocks@[m] != b,
        decreases blocks@.len() - n,
    {
        if blocks[n] == b {
            return true;
        }
        n = n + 1;
    }
    false
}

fn new_false_grid() -> (r: Vec<bool>)
    ensures
        r@.len() == 4096,
        forall|n: int| 0 <= n < 4096 ==> r@[n] == false,
{
    let mut d: Vec<bool> = Vec::new();
    let mut n: usize = 0;
    while n < 4096
        invariant
            n == d@.len(),
            n <= 4096,
            forall|m: int| 0 <= m < n ==> d@[m] == false,
        decreases 4096 - n,
    {
        d.push(false);
        n = n + 1;
    }
    d
}

fn cell_matches(
    voxel: &VoxelData,
    done: &Vec<bool>,
    blocks: &[BlockType],
    axis: Axis,
    positive: bool,
    i: usize,
    w: usize,
    h: usize,
    b: BlockType,
    ao: AmbiantOcclusion,
) -> (r: bool)
    requires
        voxel.wf(),
        done@.len() == 4096,
        in_face_range(i as int, w as int, h as int),
    ensures
        r == cell_ok(
            voxel@,
            blocks@,
            done@,
            axis,
            positive,
            i as int,
            w as int,
            h as int,
            b,
            ao,
        ),
{
    if done[(w - 1) + 64 * (h - 1)] {
        return false;
    }
    let cur = voxel.block_at_cell(axis, i, w, h);
    if cur != b {
        return false;
    }
    if !contains_block(blocks, cur) {
        return false;
    }
    let neighbor_slice = if positive {
        i + 1
    } else {
        i - 1
    };
    let nb = voxel.block_at_cell(axis, neighbor_slice, w, h);
    if nb.is_covering_for(&cur) {
        return false;
    }
    let a = voxel.get_ambiant_occlusion(axis, positive, i, w, h);
    a == ao
}

#[verifier::loop_isolation(false)]
fn row_matches(
    voxel: &VoxelData,
    done: &Vec<bool>,
    blocks: &[BlockType],
    axis: Axis,
    positive: bool,
    i: usize,
    w: usize,
    h0: usize,
    height: usize,
    b: BlockType,
    ao: AmbiantOcclusion,
) -> (r: bool)
    requires
        voxel.wf(),
        done@.len() == 4096,
        1 <= i <= 64,
        1 <= w <= 64,
        1 <= h0,
        height >= 1,
        h0 + height <= 65,
    ensures
        r == forall|t: int|
            0 <= t < height ==> #[trigger] cell_ok(
                voxel@,
                blocks@,
                done@,
                axis,
                positive,
                i as int,
                w as int,
                h0 + t,
                b,
                ao,
            ),
{
    let mut t: usize = 0;
    while t < height
        invariant
            t <= height,
            forall|s: int|
                0 <= s < t ==> #[trigger] cell_ok(
                    voxel@,
                    blocks@,
                    done@,
                    axis,
                    positive,
                    i as int,
                    w as int,
                    h0 + s,
                    b,
                    ao,
                ),
        decreases height - t,
    {
        if !cell_matches(voxel, done, blocks, axis, positive, i, w, h0 + t, b, ao) {
            assert(!cell_ok(
                voxel@,
                blocks@,
                done@,
                axis,
                positive,
                i as int,
                w as int,
                h0 + t as int,
                b,
                ao,
            ));
            return false;
        }
        t = t + 1;
    }
    true
}

} // verus!

verus! {

/// Greedy meshing of one face direction: scan every slice, root a rectangle
/// at each first unvisited visible face, grow it in height then in width
/// over cells of the same block and ambient occlusion, and emit it as one
/// quad. The returned quads cover exactly the visible faces of this
/// direction and never overlap.
#[verifier::loop_isolation(false)]
#[verifier::rlimit(60)]
pub fn mesh_direction(
    voxel: &VoxelData,
    blocks: &[BlockType],
    axis: Axis,
    positive: bool,
) -> (quads: Vec<Quad>)
    requires
        voxel.wf(),
    ensures
        quads_wf(voxel@, blocks@, quads@),
        forall|n: int|
            0 <= n < quads@.len() ==> (#[trigger] quads@[n]).axis == axis && quads@[n].positive
                == positive,
        quads_disjoint(quads@),
        quads_complete_dir(voxel@, blocks@, quads@, axis, positive),
        quads@.len() <= 262144,
{
    let ghost g = voxel@;
    let ghost bs = blocks@;
    let mut quads: Vec<Quad> = Vec::new();
    let mut i: usize = 1;
    while i <= 64
        invariant
            1 <= i <= 65,
            quads_wf(g, bs, quads@),
            forall|n: int|
                0 <= n < quads@.len() ==> (#[trigger] quads@[n]).axis == axis
                    && quads@[n].positive == positive && 1 <= quads@[n].slice < i,
            quads_disjoint(quads@),
            forall|i2: int, w: int, h: int|
                1 <= i2 < i && 1 <= w <= 64 && 1 <= h <= 64 && #[trigger] face_visible(
                    g,
                    bs,
                    axis,
                    positive,
                    i2,
                    w,
                    h,
                ) ==> covered(quads@, axis, positive, i2, w, h),
            quads@.len() <= 4096 * (i - 1),
        decreases 65 - i,
    {
        let mut done = new_false_grid();
        proof {
            assert forall|w: int, h: int| 1 <= w <= 64 && 1 <= h <= 64 implies (done_at(
                done@,
                w,
                h,
            ) <==> covered(quads@, axis, positive, i as int, w, h)) by {
                assert(0 <= (w - 1) + 64 * (h - 1) < 4096);
                if covered(quads@, axis, positive, i as int, w, h) {
                    let n = choose|n: int|
                        0 <= n < quads@.len() && cell_in_quad(
                            quads@[n],
                            axis,
                            positive,
                            i as int,
                            w,
                            h,
                        );
                    assert(quads@[n].slice < i);
                    assert(false);
                }
            }
        }
        let mut j: usize = 1;
        while j <= 64
            invariant
                1 <= j <= 65,
                done@.len() == 4096,
                quads_wf(g, bs, quads@),
                forall|n: int|
                    0 <= n < quads@.len() ==> (#[trigger] quads@[n]).axis == axis
                        && quads@[n].positive == positive && 1 <= quads@[n].slice <= i,
                quads_disjoint(quads@),
                forall|i2: int, w: int, h: int|
                    1 <= i2 < i && 1 <= w <= 64 && 1 <= h <= 64 && #[trigger] face_visible(
                        g,
                        bs,
                        axis,
                        positive,
                        i2,
                        w,
                        h,
                    ) ==> covered(quads@, axis, positive, i2, w, h),
                done_matches(done@, quads@, axis, positive, i as int),
                forall|w: int, h: int|
                    1 <= w <= 64 && 1 <= h <= 64 && h < j && #[trigger] face_visible(
                        g,
                        bs,
                        axis,
                        positive,
                        i as int,
                        w,
                        h,
                    ) ==> done_at(done@, w, h),
                quads@.len() <= 4096 * (i - 1) + 64 * (j - 1),
            decreases 65 - j,
        {
            let mut k: usize = 1;
            while k <= 64
                invariant
                    1 <= k <= 65,
                    done@.len() == 4096,
                    quads_wf(g, bs, quads@),
                    forall|n: int|
                        0 <= n < quads@.len() ==> (#[trigger] quads@[n]).axis == axis
                            && quads@[n].positive == positive && 1 <= quads@[n].slice <= i,
                    quads_disjoint(quads@),
                    forall|i2: int, w: int, h: int|
                        1 <= i2 < i && 1 <= w <= 64 && 1 <= h <= 64 && #[trigger] face_visible(
                            g,
                            bs,
                            axis,
                            positive,
                            i2,
                            w,
                            h,
                        ) ==> covered(quads@, axis, positive, i2, w, h),
                    done_matches(done@, quads@, axis, positive, i as int),
                    forall|w: int, h: int|
                        1 <= w <= 64 && 1 <= h <= 64 && (h < j || (h == j && w < k))
                            && #[trigger] face_visible(g, bs, axis, positive, i as int, w, h)
                            ==> done_at(done@, w, h),
                    quads@.len() <= 4096 * (i - 1) + 64 * (j - 1) + (k - 1),
                decreases 65 - k,
            {
                if done[(k - 1) + 64 * (j - 1)] {
                    proof {
                        assert(done_at(done@, k as int, j as int));
                    }
                } else {
                    let b = voxel.block_at_cell(axis, i, k, j);
                    if !contains_block(blocks, b) {
                        proof {
                            assert(!face_visible(g, bs, axis, positive, i as int, k as int, j as int));
                        }
                    } else {
                        let neighbor_slice = if positive {
                            i + 1
                        } else {
                            i - 1
                        };
                        let nb = voxel.block_at_cell(axis, neighbor_slice, k, j);
                        if nb.is_covering_for(&b) {
                            proof {
                                assert(!face_visible(
                                    g,
                                    bs,
                                    axis,
                                    positive,
                                    i as int,
                                    k as int,
                                    j as int,
                                ));
                            }
                        } else {
                            let ao = voxel.get_ambiant_occlusion(axis, positive, i, k, j);
                            let mut height: usize = 1;
                            while j + height <= 64 && cell_matches(
                                voxel,
                                &done,
                                blocks,
                                axis,
                                positive,
                                i,
                                k,
                                j + height,
                                b,
                                ao,
                            )
                                invariant
                                    1 <= height,
                                    j + height <= 65,
                                    forall|h2: int|
                                        j < h2 < j + height ==> cell_ok(
                                            g,
                                            bs,
                                            done@,
                                            axis,
                                            positive,
                                            i as int,
                                            k as int,
                                            h2,
                                            b,
                                            ao,
                                        ),
                                decreases 65 - height,
                            {
                                proof {
                                    assert(cell_ok(
                                        g,
                                        bs,
                                        done@,
                                        axis,
                                        positive,
                                        i as int,
                                        k as int,
                                        j + height as int,
                                        b,
                                        ao,
                                    ));
                                }
                                height = height + 1;
                            }
                            let mut width: usize = 1;
                            while k + width <= 64 && row_matches(
                                voxel,
                                &done,
                                blocks,
                                axis,
                                positive,
                                i,
                                k + width,
                                j,
                                height,
                                b,
                                ao,
                            )
                                invariant
                                    1 <= width,
                                    k + width <= 65,
                                    forall|w2: int, h2: int|
                                        k < w2 < k + width && j <= h2 < j + height ==> cell_ok(
                                            g,
                                            bs,
                                            done@,
                                            axis,
                                            positive,
                                            i as int,
                                            w2,
                                            h2,
                                            b,
                                            ao,
                                        ),
                                decreases 65 - width,
                            {
                                proof {
                                    assert forall|h2: int| j <= h2 < j + height implies #[trigger] cell_ok(
                                        g,
                                        bs,
                                        done@,
                                        axis,
                                        positive,
                                        i as int,
                                        (k + width) as int,
                                        h2,
                                        b,
                                        ao,
                                    ) by {
                                        assert(cell_ok(
                                            g,
                                            bs,
                                            done@,
                                            axis,
                                            positive,
                                            i as int,
                                            (k + width) as int,
                                            j + (h2 - j),
                                            b,
                                            ao,
                                        ));
                                    }
                                }
                                width = width + 1;
                            }
                            // every cell of the rectangle may be taken
                            let ghost pre_done = done@;
                            proof {
                                assert forall|w2: int, h2: int|
                                    k <= w2 < k + width && j <= h2 < j + height implies cell_ok(
                                        g,
                                        bs,
                                        pre_done,
                                        axis,
                                        positive,
                                        i as int,
                                        w2,
                                        h2,
                                        b,
                                        ao,
                                    ) by {
                                    if w2 == k {
                                        if h2 == j {
                                            assert(!done_at(pre_done, k as int, j as int));
                                            assert(face_visible(
                                                g,
                                                bs,
                                                axis,
                                                positive,
                                                i as int,
                                                k as int,
                                                j as int,
                                            ));
                                        }
                                    }
                                }
                            }
                            // mark the rectangle as visited
                            let mut u: usize = 0;
                            while u < width
                                invariant
                                    u <= width,
                                    done@.len() == 4096,
                                    forall|w2: int, h2: int|
                                        1 <= w2 <= 64 && 1 <= h2 <= 64 ==> (#[trigger] done_at(
                                            done@,
                                            w2,
                                            h2,
                                        ) <==> (done_at(pre_done, w2, h2) || (k <= w2 < k + u && j
                                            <= h2 < j + height))),
                                decreases width - u,
                            {
                                let mut t: usize = 0;
                                while t < height
                                    invariant
                                        t <= height,
                                        u < width,
                                        done@.len() == 4096,
                                        forall|w2: int, h2: int|
                                            1 <= w2 <= 64 && 1 <= h2 <= 64 ==> (#[trigger] done_at(
                                                done@,
                                                w2,
                                                h2,
                                            ) <==> (done_at(pre_done, w2, h2) || (k <= w2 < k + u
                                                && j <= h2 < j + height) || (w2 == k + u && j <= h2
                                                < j + t))),
                                    decreases height - t,
                                {
                                    let ghost before = done@;
                                    done.set((k + u - 1) + 64 * (j + t - 1), true);
                                    proof {
                                        assert forall|w2: int, h2: int|
                                            1 <= w2 <= 64 && 1 <= h2 <= 64 implies (#[trigger] done_at(
                                                done@,
                                                w2,
                                                h2,
                                            ) <==> (done_at(pre_done, w2, h2) || (k <= w2 < k + u
                                                && j <= h2 < j + height) || (w2 == k + u && j <= h2
                                                < j + t + 1))) by {
                                            if w2 == k + u && h2 == j + t {
                                            } else {
                                                if h2 == j + t {
                                                    assert((w2 - 1) + 64 * (h2 - 1) != (k + u - 1) + 64 * (j + t - 1));
                                                } else {
                                                    assert((w2 - 1) + 64 * (h2 - 1) != (k + u - 1) + 64 * (j + t - 1));
                                                }
                                                assert(done_at(done@, w2, h2) == done_at(before, w2, h2));
                                            }
                                        }
                                    }
                                    t = t + 1;
                                }
                                u = u + 1;
                            }
                            let q = Quad {
                                axis,
                                positive,
                                slice: i,
                                w0: k,
                                h0: j,
                                width,
                                height,
                                block: b,
                                ao,
                            };
                            let ghost old_quads = quads@;
                            quads.push(q);
                            proof {
                                assert(quads@ == old_quads.push(q));
                                let qi = old_quads.len() as int;
                                // the new quad is well-formed
                                assert forall|w2: int, h2: int|
                                    #![trigger cell_in_quad(q, q.axis, q.positive, q.slice as int, w2, h2)]
                                    cell_in_quad(
                                        q,
                                        q.axis,
                                        q.positive,
                                        q.slice as int,
                                        w2,
                                        h2,
                                    ) implies {
                                    &&& face_visible(g, bs, q.axis, q.positive, q.slice as int, w2, h2)
                                    &&& grid_at_cell(g, q.axis, q.slice as int, w2, h2) == q.block
                                    &&& ao_at(g, q.axis, q.positive, q.slice as int, w2, h2) == q.ao
                                } by {
                                    assert(cell_ok(
                                        g,
                                        bs,
                                        pre_done,
                                        axis,
                                        positive,
                                        i as int,
                                        w2,
                                        h2,
                                        b,
                                        ao,
                                    ));
                                }
                                assert(quad_wf(g, bs, q));
                                // well-formedness and direction of all quads
                                assert forall|n: int| 0 <= n < quads@.len() implies quad_wf(
                                    g,
                                    bs,
                                    #[trigger] quads@[n],
                                ) && quads@[n].axis == axis && quads@[n].positive == positive && 1
                                    <= quads@[n].slice <= i by {
                                    if n < qi {
                                        assert(quads@[n] == old_quads[n]);
                                    } else {
                                        assert(quads@[n] == q);
                                    }
                                }
                                // disjointness of the grown list
                                assert forall|m: int, n: int, ax2: Axis, pos2: bool, i2: int, w2: int, h2: int|
                                    0 <= m < quads@.len() && 0 <= n < quads@.len() && m != n
                                        && #[trigger] cell_in_quad(
                                        quads@[m],
                                        ax2,
                                        pos2,
                                        i2,
                                        w2,
                                        h2,
                                    ) implies !#[trigger] cell_in_quad(
                                        quads@[n],
                                        ax2,
                                        pos2,
                                        i2,
                                        w2,
                                        h2,
                                    ) by {
                                    if m < qi && n < qi {
                                        assert(quads@[m] == old_quads[m]);
                                        assert(quads@[n] == old_quads[n]);
                                    } else if m == qi {
                                        assert(quads@[m] == q);
                                        assert(quads@[n] == old_quads[n]);
                                        assert(ax2 == axis && pos2 == positive && i2 == i as int);
                                        assert(cell_ok(g, bs, pre_done, axis, positive, i as int, w2, h2, b, ao));
                                        if cell_in_quad(old_quads[n], ax2, pos2, i2, w2, h2) {
                                            assert(covered(old_quads, axis, positive, i as int, w2, h2));
                                            assert(done_at(pre_done, w2, h2));
                                            assert(false);
                                        }
                                    } else {
                                        assert(quads@[n] == q);
                                        assert(quads@[m] == old_quads[m]);
                                        if cell_in_quad(q, ax2, pos2, i2, w2, h2) {
                                            assert(ax2 == axis && pos2 == positive && i2 == i as int);
                                            assert(cell_ok(g, bs, pre_done, axis, positive, i as int, w2, h2, b, ao));
                                            assert(covered(old_quads, axis, positive, i as int, w2, h2));
                                            assert(done_at(pre_done, w2, h2));
                                            assert(false);
                                        }
                                    }
                                }
                                // faces of earlier slices stay covered
                                assert forall|i2: int, w2: int, h2: int|
                                    1 <= i2 < i && 1 <= w2 <= 64 && 1 <= h2 <= 64
                                        && #[trigger] face_visible(g, bs, axis, positive, i2, w2, h2)
                                        implies covered(quads@, axis, positive, i2, w2, h2) by {
                                    assert(covered(old_quads, axis, positive, i2, w2, h2));
                                    let n = choose|n: int|
                                        0 <= n < old_quads.len() && cell_in_quad(
                                            old_quads[n],
                                            axis,
                                            positive,
                                            i2,
                                            w2,
                                            h2,
                                        );
                                    assert(quads@[n] == old_quads[n]);
                                    assert(cell_in_quad(quads@[n], axis, positive, i2, w2, h2));
                                }
                                // the visited grid again matches the covered cells
                                assert forall|w2: int, h2: int| 1 <= w2 <= 64 && 1 <= h2 <= 64 implies (
                                    #[trigger] done_at(done@, w2, h2) <==> covered(
                                        quads@,
                                        axis,
                                        positive,
                                        i as int,
                                        w2,
                                        h2,
                                    )) by {
                                    if done_at(done@, w2, h2) {
                                        if done_at(pre_done, w2, h2) {
                                            assert(covered(old_quads, axis, positive, i as int, w2, h2));
                                            let n = choose|n: int|
                                                0 <= n < old_quads.len() && cell_in_quad(
                                                    old_quads[n],
                                                    axis,
                                                    positive,
                                                    i as int,
                                                    w2,
                                                    h2,
                                                );
                                            assert(quads@[n] == old_quads[n]);
                                            assert(cell_in_quad(quads@[n], axis, positive, i as int, w2, h2));
                                        } else {
                                            assert(cell_in_quad(q, axis, positive, i as int, w2, h2));
                                            assert(quads@[qi] == q);
                                        }
                                    } else {
                                        if covered(quads@, axis, positive, i as int, w2, h2) {
                                            let n = choose|n: int|
                                                0 <= n < quads@.len() && cell_in_quad(
                                                    quads@[n],
                                                    axis,
                                                    positive,
                                                    i as int,
                                                    w2,
                                                    h2,
                                                );
                                            if n < qi {
                                                assert(quads@[n] == old_quads[n]);
                                                assert(covered(old_quads, axis, positive, i as int, w2, h2));
                                                assert(done_at(pre_done, w2, h2));
                                            } else {
                                                assert(quads@[n] == q);
                                                assert(done_at(done@, w2, h2));
                                            }
                                            assert(false);
                                        }
                                    }
                                }
                                // the scanned prefix stays marked
                                assert forall|w2: int, h2: int|
                                    1 <= w2 <= 64 && 1 <= h2 <= 64 && (h2 < j || (h2 == j && w2 < k
                                        + 1)) && #[trigger] face_visible(
                                        g,
                                        bs,
                                        axis,
                                        positive,
                                        i as int,
                                        w2,
                                        h2,
                                    ) implies done_at(done@, w2, h2) by {
                                    if h2 == j && w2 == k as int {
                                        assert(k <= w2 < k + width && j <= h2 < j + height);
                                    } else {
                                        assert(done_at(pre_done, w2, h2) ==> done_at(done@, w2, h2));
                                    }
                                }
                            }
                        }
                    }
                }
                k = k + 1;
            }
            j = j + 1;
        }
        proof {
            assert forall|i2: int, w: int, h: int|
                1 <= i2 < i + 1 && 1 <= w <= 64 && 1 <= h <= 64 && #[trigger] face_visible(
                    g,
                    bs,
                    axis,
                    positive,
                    i2,
                    w,
                    h,
                ) implies covered(quads@, axis, positive, i2, w, h) by {
                if i2 == i as int {
                    assert(done_at(done@, w, h));
                }
            }
        }
        i = i + 1;
    }
    quads
}

} // verus!

verus! {

/// Merging the quads of two directions keeps well-formedness and
/// disjointness, provided no quad of the first list shares a direction with
/// a quad of the second; whatever either list covered stays covered.
pub proof fn lemma_merge_directions(
    g: Seq<BlockType>,
    bs: Seq<BlockType>,
    qs1: Seq<Quad>,
    qs2: Seq<Quad>,
)
    requires
        quads_wf(g, bs, qs1),
        quads_wf(g, bs, qs2),
        quads_disjoint(qs1),
        quads_disjoint(qs2),
        forall|m: int, n: int|
            0 <= m < qs1.len() && 0 <= n < qs2.len() ==> !((#[trigger] qs1[m]).axis == (
            #[trigger] qs2[n]).axis && qs1[m].positive == qs2[n].positive),
    ensures
        quads_wf(g, bs, qs1 + qs2),
        quads_disjoint(qs1 + qs2),
        forall|axis: Axis, positive: bool, i: int, w: int, h: int|
            #[trigger] covered(qs1, axis, positive, i, w, h) ==> covered(
                qs1 + qs2,
                axis,
                positive,
                i,
                w,
                h,
            ),
        forall|axis: Axis, positive: bool, i: int, w: int, h: int|
            #[trigger] covered(qs2, axis, positive, i, w, h) ==> covered(
                qs1 + qs2,
                axis,
                positive,
                i,
                w,
                h,
            ),
{
    let qs = qs1 + qs2;
    assert forall|n: int| 0 <= n < qs.len() implies quad_wf(g, bs, #[trigger] qs[n]) by {
        if n < qs1.len() {
            assert(qs[n] == qs1[n]);
        } else {
            assert(qs[n] == qs2[n - qs1.len()]);
        }
    }
    assert forall|m: int, n: int, axis: Axis, positive: bool, i: int, w: int, h: int|
        0 <= m < qs.len() && 0 <= n < qs.len() && m != n && #[trigger] cell_in_quad(
            qs[m],
            axis,
            positive,
            i,
            w,
            h,
        ) implies !#[trigger] cell_in_quad(qs[n], axis, positive, i, w, h) by {
        let l1 = qs1.len() as int;
        if m < l1 && n < l1 {
            assert(qs[m] == qs1[m]);
            assert(qs[n] == qs1[n]);
        } else if m >= l1 && n >= l1 {
            assert(qs[m] == qs2[m - l1]);
            assert(qs[n] == qs2[n - l1]);
        } else if m < l1 {
            assert(qs[m] == qs1[m]);
            assert(qs[n] == qs2[n - l1]);
            if cell_in_quad(qs[n], axis, positive, i, w, h) {
                assert(qs1[m].axis == axis && qs1[m].positive == positive);
                assert(qs2[n - l1].axis == axis && qs2[n - l1].positive == positive);
                assert(false);
            }
        } else {
            assert(qs[m] == qs2[m - l1]);
            assert(qs[n] == qs1[n]);
            if cell_in_quad(qs[n], axis, positive, i, w, h) {
                assert(qs1[n].axis == axis && qs1[n].positive == positive);
                assert(qs2[m - l1].axis == axis && qs2[m - l1].positive == positive);
                assert(false);
            }
        }
    }
    assert forall|axis: Axis, positive: bool, i: int, w: int, h: int| #[trigger] covered(
        qs1,
        axis,
        positive,
        i,
        w,
        h,
    ) implies covered(qs, axis, positive, i, w, h) by {
        let n = choose|n: int|
            0 <= n < qs1.len() && #[trigger] cell_in_quad(qs1[n], axis, positive, i, w, h);
        assert(qs[n] == qs1[n]);
        assert(cell_in_quad(qs[n], axis, positive, i, w, h));
    }
    assert forall|axis: Axis, positive: bool, i: int, w: int, h: int| #[trigger] covered(
        qs2,
        axis,
        positive,
        i,
        w,
        h,
    ) implies covered(qs, axis, positive, i, w, h) by {
        let n = choose|n: int|
            0 <= n < qs2.len() && #[trigger] cell_in_quad(qs2[n], axis, positive, i, w, h);
        assert(qs[qs1.len() + n] == qs2[n]);
        assert(cell_in_quad(qs[qs1.len() + n], axis, positive, i, w, h));
    }
}

/// What `get_mesh_for_blocks` promises: either there is no visible face of
/// any direction and no mesh, or the mesh's quads are well-formed, disjoint,
/// cover every visible face, and were emitted exactly into the buffers.
pub open spec fn mesh_matches(
    r: Option<crate::mesh_data::MeshData>,
    g: Seq<BlockType>,
    bs: Seq<BlockType>,
    lod: crate::chunk_lod::ChunkLod,
    min_height: int,
) -> bool {
    match r {
        Option::None => forall|axis: Axis, positive: bool, i: int, w: int, h: int|
            in_face_range(i, w, h) ==> !face_visible(g, bs, axis, positive, i, w, h),
        Option::Some(m) => {
            &&& m.wf()
            &&& m.lod == lod
            &&& m.min_height == min_height
            &&& quads_wf(g, bs, m.quads@)
            &&& quads_disjoint(m.quads@)
            &&& quads_complete(g, bs, m.quads@)
            &&& m.quads@.len() >= 1
        },
    }
}

/// Mesh all visible faces of the blocks of `blocks`: greedy meshing of all
/// six directions, then emission into one vertex and index buffer. Returns
/// nothing when no face is visible.
#[verifier::loop_isolation(false)]
#[verifier::rlimit(100)]
pub fn get_mesh_for_blocks(
    blocks: &[BlockType],
    voxel_data: &VoxelData,
    min_height: i64,
    chunk_lod: crate::chunk_lod::ChunkLod,
) -> (r: Option<crate::mesh_data::MeshData>)
    requires
        voxel_data.wf(),
        -crate::mesh_data::MIN_HEIGHT_BOUND <= min_height <= crate::mesh_data::MIN_HEIGHT_BOUND,
    ensures
        mesh_matches(r, voxel_data@, blocks@, chunk_lod, min_height as int),
{
    let ghost g = voxel_data@;
    let ghost bs = blocks@;
    let mut all = mesh_direction(voxel_data, blocks, Axis::X, true);
    let ghost s1 = all@;
    let mut part = mesh_direction(voxel_data, blocks, Axis::X, false);
    let ghost s2 = part@;
    proof {
        lemma_merge_directions(g, bs, all@, part@);
    }
    all.append(&mut part);
    let ghost a2 = all@;
    let mut part = mesh_direction(voxel_data, blocks, Axis::Z, true);
    let ghost s3 = part@;
    proof {
        assert forall|m: int, n: int|
            0 <= m < all@.len() && 0 <= n < part@.len() implies !((#[trigger] all@[m]).axis == (
        #[trigger] part@[n]).axis && all@[m].positive == part@[n].positive) by {
            if m < s1.len() {
                assert(all@[m] == s1[m]);
            } else {
                assert(all@[m] == s2[m - s1.len()]);
            }
        }
        lemma_merge_directions(g, bs, all@, part@);
    }
    all.append(&mut part);
    let ghost a3 = all@;
    let mut part = mesh_direction(voxel_data, blocks, Axis::Z, false);
    let ghost s4 = part@;
    proof {
        assert forall|m: int, n: int|
            0 <= m < all@.len() && 0 <= n < part@.len() implies !((#[trigger] all@[m]).axis == (
        #[trigger] part@[n]).axis && all@[m].positive == part@[n].positive) by {
            if m < a2.len() {
                assert(all@[m] == a2[m]);
                if m < s1.len() {
                    assert(a2[m] == s1[m]);
                } else {
                    assert(a2[m] == s2[m - s1.len()]);
                }
            } else {
                assert(all@[m] == s3[m - a2.len()]);
            }
        }
        lemma_merge_directions(g, bs, all@, part@);
    }
    all.append(&mut part);
    let ghost a4 = all@;
    let mut part = mesh_direction(voxel_data, blocks, Axis::Y, true);
    let ghost s5 = part@;
    proof {
        assert forall|m: int, n: int|
            0 <= m < all@.len() && 0 <= n < part@.len() implies !((#[trigger] all@[m]).axis == (
        #[trigger] part@[n]).axis && all@[m].positive == part@[n].positive) by {
            if m < a3.len() {
                assert(all@[m] == a3[m]);
                if m < a2.len() {
                    assert(a3[m] == a2[m]);
                    if m < s1.len() {
                        assert(a2[m] == s1[m]);
                    } else {
                        assert(a2[m] == s2[m - s1.len()]);
                    }
                } else {
                    assert(a3[m] == s3[m - a2.len()]);
                }
            } else {
                assert(all@[m] == s4[m - a3.len()]);
            }
        }
        lemma_merge_directions(g, bs, all@, part@);
    }
    all.append(&mut part);
    let ghost a5 = all@;
    let mut part = mesh_direction(voxel_data, blocks, Axis::Y, false);
    let ghost s6 = part@;
    proof {
        assert forall|m: int, n: int|
            0 <= m < all@.len() && 0 <= n < part@.len() implies !((#[trigger] all@[m]).axis == (
        #[trigger] part@[n]).axis && all@[m].positive == part@[n].positive) by {
            if m < a4.len() {
                assert(all@[m] == a4[m]);
                if m < a3.len() {
                    assert(a4[m] == a3[m]);
                    if m < a2.len() {
                        assert(a3[m] == a2[m]);
                        if m < s1.len() {
                            assert(a2[m] == s1[m]);
                        } else {
                            assert(a2[m] == s2[m - s1.len()]);
                        }
                    } else {
                        assert(a3[m] == s3[m - a2.len()]);
                    }
                } else {
                    assert(a4[m] == s4[m - a3.len()]);
                }
            } else {
                assert(all@[m] == s5[m - a4.len()]);
            }
        }
        lemma_merge_directions(g, bs, all@, part@);
    }
    all.append(&mut part);
    proof {
        // every visible face of any direction is covered by the merged list
        assert forall|axis: Axis, positive: bool, i: int, w: int, h: int|
            in_face_range(i, w, h) && #[trigger] face_visible(g, bs, axis, positive, i, w, h)
                implies covered(all@, axis, positive, i, w, h) by {
            match axis {
                Axis::X => {
                    if positive {
                        assert(covered(s1, axis, positive, i, w, h));
                        assert(covered(a2, axis, positive, i, w, h));
                    } else {
                        assert(covered(s2, axis, positive, i, w, h));
                        assert(covered(a2, axis, positive, i, w, h));
                    }
                    assert(covered(a3, axis, positive, i, w, h));
                    assert(covered(a4, axis, positive, i, w, h));
                    assert(covered(a5, axis, positive, i, w, h));
                },
                Axis::Z => {
                    if positive {
                        assert(covered(s3, axis, positive, i, w, h));
                        assert(covered(a3, axis, positive, i, w, h));
                    } else {
                        assert(covered(s4, axis, positive, i, w, h));
                        assert(covered(a4, axis, positive, i, w, h));
                    }
                    assert(covered(a4, axis, positive, i, w, h));
                    assert(covered(a5, axis, positive, i, w, h));
                },
                Axis::Y => {
                    if positive {
                        assert(covered(s5, axis, positive, i, w, h));
                        assert(covered(a5, axis, positive, i, w, h));
                    } else {
                        assert(covered(s6, axis, positive, i, w, h));
                    }
                },
            }
        }
    }
    if all.len() == 0 {
        proof {
            assert forall|axis: Axis, positive: bool, i: int, w: int, h: int|
                in_face_range(i, w, h) implies !face_visible(g, bs, axis, positive, i, w, h) by {
                if face_visible(g, bs, axis, positive, i, w, h) {
                    assert(covered(all@, axis, positive, i, w, h));
                    let n = choose|n: int|
                        0 <= n < all@.len() && #[trigger] cell_in_quad(
                            all@[n],
                            axis,
                            positive,
                            i,
                            w,
                            h,
                        );
                    assert(false);
                }
            }
        }
        None
    } else {
        proof {
            assert forall|n: int| 0 <= n < all@.len() implies quad_bounds(#[trigger] all@[n]) by {
                assert(quad_wf(g, bs, all@[n]));
            }
        }
        let mesh = crate::mesh_data::emit_quads(&all, chunk_lod, min_height);
        Some(mesh)
    }
}

/// The opaque and the transparent mesh of one voxel grid.
pub struct MeshResult {
    pub opaque_mesh: Option<crate::mesh_data::MeshData>,
    pub transparent_mesh: Option<crate::mesh_data::MeshData>,
}

/// The blocks of the opaque mesh pass.
pub open spec fn opaque_blocks() -> Seq<BlockType> {
    seq![
        BlockType::Stone,
        BlockType::Grass,
        BlockType::Log,
        BlockType::Snow,
        BlockType::Dirt,
    ]
}

/// The blocks of the transparent mesh pass.
pub open spec fn transparent_blocks() -> Seq<BlockType> {
    seq![BlockType::Leaf]
}

/// Mesh a voxel grid: one opaque pass over the solid blocks and one
/// transparent pass over Leaf, each `None` when that pass has no visible
/// face.
pub fn generate_mesh(
    voxel_data: &VoxelData,
    min_height: i64,
    chunk_lod: crate::chunk_lod::ChunkLod,
) -> (r: MeshResult)
    requires
        voxel_data.wf(),
        -crate::mesh_data::MIN_HEIGHT_BOUND <= min_height <= crate::mesh_data::MIN_HEIGHT_BOUND,
    ensures
        mesh_matches(r.opaque_mesh, voxel_data@, opaque_blocks(), chunk_lod, min_height as int),
        mesh_matches(
            r.transparent_mesh,
            voxel_data@,
            transparent_blocks(),
            chunk_lod,
            min_height as int,
        ),
{
    let mut opaque_set: Vec<BlockType> = Vec::new();
    opaque_set.push(BlockType::Stone);
    opaque_set.push(BlockType::Grass);
    opaque_set.push(BlockType::Log);
    opaque_set.push(BlockType::Snow);
    opaque_set.push(BlockType::Dirt);
    proof {
        assert(opaque_set@ =~= opaque_blocks());
    }
    let mut transparent_set: Vec<BlockType> = Vec::new();
    transparent_set.push(BlockType::Leaf);
    proof {
        assert(transparent_set@ =~= transparent_blocks());
    }
    let opaque_mesh = get_mesh_for_blocks(
        opaque_set.as_slice(),
        voxel_data,
        min_height,
        chunk_lod,
    );
    let transparent_mesh = get_mesh_for_blocks(
        transparent_set.as_slice(),
        voxel_data,
        min_height,
        chunk_lod,
    );
    MeshResult { opaque_mesh, transparent_mesh }
}

} // verus!

verus! {

/// No emitted face lies between two blocks that cover each other: every
/// cell of every well-formed quad is a visible face, so the block its face
/// looks at does not cover the cell's block.
pub proof fn lemma_no_covered_face(
    g: Seq<BlockType>,
    bs: Seq<BlockType>,
    qs: Seq<Quad>,
    n: int,
    w: int,
    h: int,
)
    requires
        quads_wf(g, bs, qs),
        0 <= n < qs.len(),
        cell_in_quad(qs[n], qs[n].axis, qs[n].positive, qs[n].slice as int, w, h),
    ensures
        !spec_is_covering_for(
            grid_at_cell(g, qs[n].axis, qs[n].slice + dir_step(qs[n].positive), w, h),
            grid_at_cell(g, qs[n].axis, qs[n].slice as int, w, h),
        ),
{
    assert(quad_wf(g, bs, qs[n]));
}

} // verus!
