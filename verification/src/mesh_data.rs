//! Mesh buffers. Each quad becomes four vertices and six triangle indices.
//! Positions are kept in doubled integer world units (vertices of a voxel
//! mesh sit on half-voxel boundaries), so the whole buffer is exact; the
//! host divides by two and scales when it uploads the mesh.

use vstd::prelude::*;

use crate::chunk_lod::{ChunkLod, lod_multiplier};
use crate::block_type::spec_texture_id;
use crate::direction::{Axis, spec_face_of};
use crate::mesh_generation::{Quad, quad_bounds};

verus! {

/// Largest magnitude of a chunk's base height accepted by the mesher; keeps
/// all doubled vertex coordinates well inside `i64`.
pub const MIN_HEIGHT_BOUND: i64 = 0x1_0000_0000_0000;

/// One mesh vertex. `px, py, pz` are doubled world coordinates; `nx, ny,
/// nz` the face normal; `u, v` texture coordinates in world voxel units;
/// `shade` the ambient-occlusion count of this corner; `texture_id` the
/// texture-array layer.
#[derive(Copy, Clone, Debug, PartialEq, Eq, Structural)]
pub struct Vertex {
    pub px: i64,
    pub py: i64,
    pub pz: i64,
    pub nx: i32,
    pub ny: i32,
    pub nz: i32,
    pub u: i64,
    pub v: i64,
    pub shade: u8,
    pub texture_id: u32,
}

/// Doubled coordinate along the slice axis of every corner of `q`: the face
/// plane, half a cell outward of the cell centre.
pub open spec fn corner_slice_coord(q: Quad) -> int {
    if q.positive {
        2 * q.slice + 1
    } else {
        2 * q.slice - 1
    }
}

/// Doubled coordinate along the height axis of corner `c` (corners 1 and 2
/// sit at the low edge, corners 3 and 4 at the high edge).
pub open spec fn corner_height_coord(q: Quad, c: int) -> int {
    if c == 0 || c == 1 {
        2 * q.h0 - 1
    } else {
        2 * q.h0 + 2 * q.height - 1
    }
}

/// Doubled coordinate along the width axis of corner `c` (corners 1 and 4
/// sit at the low edge, corners 2 and 3 at the high edge).
pub open spec fn corner_width_coord(q: Quad, c: int) -> int {
    if c == 0 || c == 3 {
        2 * q.w0 - 1
    } else {
        2 * q.w0 + 2 * q.width - 1
    }
}

/// Doubled grid x of corner `c` of `q`, before the world transform.
pub open spec fn corner_raw_x(q: Quad, c: int) -> int {
    match q.axis {
        Axis::X => corner_slice_coord(q),
        Axis::Y => corner_height_coord(q, c),
        Axis::Z => corner_width_coord(q, c),
    }
}

/// Doubled grid y of corner `c` of `q`, before the world transform.
pub open spec fn corner_raw_y(q: Quad, c: int) -> int {
    match q.axis {
        Axis::X => corner_height_coord(q, c),
        Axis::Y => corner_slice_coord(q),
        Axis::Z => corner_height_coord(q, c),
    }
}

/// Doubled grid z of corner `c` of `q`, before the world transform.
pub open spec fn corner_raw_z(q: Quad, c: int) -> int {
    match q.axis {
        Axis::X => corner_width_coord(q, c),
        Axis::Y => corner_width_coord(q, c),
        Axis::Z => corner_slice_coord(q),
    }
}

/// Final doubled world x of corner `c`: the grid coordinate shifted half a
/// voxel down, scaled by the LOD cell width, shifted one voxel up.
pub open spec fn corner_px(q: Quad, c: int, lod: ChunkLod) -> int {
    (corner_raw_x(q, c) - 1) * lod_multiplier(lod) + 2
}

/// Final doubled world y of corner `c`; the chunk's base height is added
/// before scaling.
pub open spec fn corner_py(q: Quad, c: int, lod: ChunkLod, min_height: int) -> int {
    (corner_raw_y(q, c) - 1 + 2 * min_height) * lod_multiplier(lod) + 2
}

/// Final doubled world z of corner `c`.
pub open spec fn corner_pz(q: Quad, c: int, lod: ChunkLod) -> int {
    (corner_raw_z(q, c) - 1) * lod_multiplier(lod) + 2
}

/// Signed unit normal component along x of direction (`axis`, `positive`).
pub open spec fn normal_x(axis: Axis, positive: bool) -> int {
    match axis {
        Axis::X => if positive {
            1
        } else {
            -1
        },
        _ => 0,
    }
}

/// Signed unit normal component along y of direction (`axis`, `positive`).
pub open spec fn normal_y(axis: Axis, positive: bool) -> int {
    match axis {
        Axis::Y => if positive {
            1
        } else {
            -1
        },
        _ => 0,
    }
}

/// Signed unit normal component along z of direction (`axis`, `positive`).
pub open spec fn normal_z(axis: Axis, positive: bool) -> int {
    match axis {
        Axis::Z => if positive {
            1
        } else {
            -1
        },
        _ => 0,
    }
}

/// Texture u of corner `c`: the quad's width in world units at corners 1
/// and 4's opposite side, so texture density is constant across LODs.
pub open spec fn corner_u(q: Quad, c: int, lod: ChunkLod) -> int {
    if c == 0 || c == 3 {
        q.width * lod_multiplier(lod)
    } else {
        0
    }
}

/// Texture v of corner `c`.
pub open spec fn corner_v(q: Quad, c: int, lod: ChunkLod) -> int {
    if c == 0 || c == 1 {
        q.height * lod_multiplier(lod)
    } else {
        0
    }
}

/// The ambient-occlusion count of corner `c`.
pub open spec fn corner_shade(q: Quad, c: int) -> int {
    if c == 0 {
        q.ao.corner_1 as int
    } else if c == 1 {
        q.ao.corner_2 as int
    } else if c == 2 {
        q.ao.corner_3 as int
    } else {
        q.ao.corner_4 as int
    }
}

/// Vertex `c` of quad `q` carries exactly the corner position, normal,
/// texture coordinates, shade and texture layer the quad calls for.
pub open spec fn vertex_matches(v: Vertex, q: Quad, c: int, lod: ChunkLod, min_height: int) -> bool {
    &&& v.px == corner_px(q, c, lod)
    &&& v.py == corner_py(q, c, lod, min_height)
    &&& v.pz == corner_pz(q, c, lod)
    &&& v.nx == normal_x(q.axis, q.positive)
    &&& v.ny == normal_y(q.axis, q.positive)
    &&& v.nz == normal_z(q.axis, q.positive)
    &&& v.u == corner_u(q, c, lod)
    &&& v.v == corner_v(q, c, lod)
    &&& v.shade == corner_shade(q, c)
    &&& v.texture_id == spec_texture_id(q.block, spec_face_of(q.axis, q.positive))
}

/// The quad is triangulated along the corner-1 to corner-3 diagonal exactly
/// when that pair carries the larger occlusion sum.
pub open spec fn quad_turn(q: Quad) -> bool {
    q.ao.corner_1 + q.ao.corner_3 > q.ao.corner_2 + q.ao.corner_4
}

/// Winding is mirrored for one sign of each axis so that triangles face
/// outward; the x axis is mirrored the other way to compensate for the
/// rotation of its frame.
pub open spec fn quad_invert(q: Quad) -> bool {
    match q.axis {
        Axis::X => !q.positive,
        _ => q.positive,
    }
}

/// The corner (0 through 3) referenced by entry `t` (0 through 5) of the
/// quad's six triangle indices.
pub open spec fn tri_offset(q: Quad, t: int) -> int {
    let inv = quad_invert(q);
    if quad_turn(q) {
        if t == 0 {
            0
        } else if t == 1 {
            if inv {
                1
            } else {
                2
            }
        } else if t == 2 {
            if inv {
                2
            } else {
                1
            }
        } else if t == 3 {
            0
        } else if t == 4 {
            if inv {
                2
            } else {
                3
            }
        } else {
            if inv {
                3
            } else {
                2
            }
        }
    } else {
        if t == 0 {
            0
        } else if t == 1 {
            if inv {
                1
            } else {
                3
            }
        } else if t == 2 {
            if inv {
                3
            } else {
                1
            }
        } else if t == 3 {
            1
        } else if t == 4 {
            if inv {
                2
            } else {
                3
            }
        } else {
            if inv {
                3
            } else {
                2
            }
        }
    }
}

/// Quad number `n` of the buffers: vertices `4n` through `4n+3` are its
/// four corners and indices `6n` through `6n+5` its two triangles.
pub open spec fn quad_emitted(
    vs: Seq<Vertex>,
    ids: Seq<u32>,
    q: Quad,
    n: int,
    lod: ChunkLod,
    min_height: int,
) -> bool {
    &&& vertex_matches(vs[4 * n], q, 0, lod, min_height)
    &&& vertex_matches(vs[4 * n + 1], q, 1, lod, min_height)
    &&& vertex_matches(vs[4 * n + 2], q, 2, lod, min_height)
    &&& vertex_matches(vs[4 * n + 3], q, 3, lod, min_height)
    &&& ids[6 * n] == 4 * n + tri_offset(q, 0)
    &&& ids[6 * n + 1] == 4 * n + tri_offset(q, 1)
    &&& ids[6 * n + 2] == 4 * n + tri_offset(q, 2)
    &&& ids[6 * n + 3] == 4 * n + tri_offset(q, 3)
    &&& ids[6 * n + 4] == 4 * n + tri_offset(q, 4)
    &&& ids[6 * n + 5] == 4 * n + tri_offset(q, 5)
}

/// A renderable mesh: vertex and index buffers, together with the quads
/// they were emitted from.
pub struct MeshData {
    pub vertices: Vec<Vertex>,
    pub indices: Vec<u32>,
    pub lod: ChunkLod,
    pub min_height: i64,
    pub quads: Ghost<Seq<Quad>>,
}

impl MeshData {
    /// The buffers hold exactly the four corners and six indices of each
    /// quad, in quad order.
    pub open spec fn wf(self) -> bool {
        &&& self.vertices@.len() == 4 * self.quads@.len()
        &&& self.indices@.len() == 6 * self.quads@.len()
        &&& forall|n: int|
            0 <= n < self.quads@.len() ==> quad_emitted(
                self.vertices@,
                self.indices@,
                #[trigger] self.quads@[n],
                n,
                self.lod,
                self.min_height as int,
            )
    }
}

/// One corner vertex of `q`, with exact integer coordinates.
fn make_corner_vertex(q: Quad, c: usize, lod: ChunkLod, min_height: i64) -> (v: Vertex)
    requires
        quad_bounds(q),
        c < 4,
        -MIN_HEIGHT_BOUND <= min_height <= MIN_HEIGHT_BOUND,
    ensures
        vertex_matches(v, q, c as int, lod, min_height as int),
{
    let mult = lod.multiplier_i32() as i64;
    proof {
        assert(1 <= lod_multiplier(lod) <= 256);
    }
    let slice_coord: i64 = if q.positive {
        2 * (q.slice as i64) + 1
    } else {
        2 * (q.slice as i64) - 1
    };
    let hc: i64 = if c == 0 || c == 1 {
        2 * (q.h0 as i64) - 1
    } else {
        2 * (q.h0 as i64) + 2 * (q.height as i64) - 1
    };
    let wc: i64 = if c == 0 || c == 3 {
        2 * (q.w0 as i64) - 1
    } else {
        2 * (q.w0 as i64) + 2 * (q.width as i64) - 1
    };
    let (rx, ry, rz): (i64, i64, i64) = match q.axis {
        Axis::X => (slice_coord, hc, wc),
        Axis::Y => (hc, slice_coord, wc),
        Axis::Z => (wc, hc, slice_coord),
    };
    let px = (rx - 1) * mult + 2;
    let py = (ry - 1 + 2 * min_height) * mult + 2;
    let pz = (rz - 1) * mult + 2;
    let (nx, ny, nz): (i32, i32, i32) = match q.axis {
        Axis::X => if q.positive {
            (1, 0, 0)
        } else {
            (-1, 0, 0)
        },
        Axis::Y => if q.positive {
            (0, 1, 0)
        } else {
            (0, -1, 0)
        },
        Axis::Z => if q.positive {
            (0, 0, 1)
        } else {
            (0, 0, -1)
        },
    };
    let u: i64 = if c == 0 || c == 3 {
        (q.width as i64) * mult
    } else {
        0
    };
    let v: i64 = if c == 0 || c == 1 {
        (q.height as i64) * mult
    } else {
        0
    };
    let shade: u8 = if c == 0 {
        q.ao.corner_1
    } else if c == 1 {
        q.ao.corner_2
    } else if c == 2 {
        q.ao.corner_3
    } else {
        q.ao.corner_4
    };
    let texture_id = q.block.get_texture_id(crate::direction::face_of(q.axis, q.positive));
    Vertex { px, py, pz, nx, ny, nz, u, v, shade, texture_id }
}

/// Emit the vertex and index buffers of `quads`.
#[verifier::loop_isolation(false)]
#[verifier::rlimit(100)]
pub fn emit_quads(quads: &Vec<Quad>, lod: ChunkLod, min_height: i64) -> (m: MeshData)
    requires
        forall|n: int| 0 <= n < quads@.len() ==> quad_bounds(#[trigger] quads@[n]),
        quads@.len() <= 0x20_0000,
        -MIN_HEIGHT_BOUND <= min_height <= MIN_HEIGHT_BOUND,
    ensures
        m.wf(),
        m.quads@ == quads@,
        m.lod == lod,
        m.min_height == min_height,
{
    let mut vertices: Vec<Vertex> = Vec::new();
    let mut indices: Vec<u32> = Vec::new();
    let mut n: usize = 0;
    while n < quads.len()
        invariant
            n <= quads@.len(),
            vertices@.len() == 4 * n,
            indices@.len() == 6 * n,
            forall|m2: int|
                0 <= m2 < n ==> quad_emitted(
                    vertices@,
                    indices@,
                    #[trigger] quads@[m2],
                    m2,
                    lod,
                    min_height as int,
                ),
        decreases quads@.len() - n,
    {
        let ghost old_vs = vertices@;
        let ghost old_ids = indices@;
        let q = quads[n];
        proof {
            assert(quad_bounds(quads@[n as int]));
        }
        let v0 = make_corner_vertex(q, 0, lod, min_height);
        let v1 = make_corner_vertex(q, 1, lod, min_height);
        let v2 = make_corner_vertex(q, 2, lod, min_height);
        let v3 = make_corner_vertex(q, 3, lod, min_height);
        vertices.push(v0);
        vertices.push(v1);
        vertices.push(v2);
        vertices.push(v3);
        let base: u32 = (4 * n) as u32;
        let turn = (q.ao.corner_1 as u32) + (q.ao.corner_3 as u32) > (q.ao.corner_2 as u32) + (
        q.ao.corner_4 as u32);
        let inv = match q.axis {
            Axis::X => !q.positive,
            _ => q.positive,
        };
        if turn {
            indices.push(base);
            indices.push(base + if inv { 1 } else { 2 });
            indices.push(base + if inv { 2 } else { 1 });
            indices.push(base);
            indices.push(base + if inv { 2 } else { 3 });
            indices.push(base + if inv { 3 } else { 2 });
        } else {
            indices.push(base);
            indices.push(base + if inv { 1 } else { 3 });
            indices.push(base + if inv { 3 } else { 1 });
            indices.push(base + 1);
            indices.push(base + if inv { 2 } else { 3 });
            indices.push(base + if inv { 3 } else { 2 });
        }
        proof {
            let ni = n as int;
            assert(vertices@[4 * ni] == v0);
            assert(vertices@[4 * ni + 1] == v1);
            assert(vertices@[4 * ni + 2] == v2);
            assert(vertices@[4 * ni + 3] == v3);
            assert(turn == quad_turn(q));
            assert(inv == quad_invert(q));
            assert(indices@[6 * ni] == 4 * ni + tri_offset(q, 0));
            assert(indices@[6 * ni + 1] == 4 * ni + tri_offset(q, 1));
            assert(indices@[6 * ni + 2] == 4 * ni + tri_offset(q, 2));
            assert(indices@[6 * ni + 3] == 4 * ni + tri_offset(q, 3));
            assert(indices@[6 * ni + 4] == 4 * ni + tri_offset(q, 4));
            assert(indices@[6 * ni + 5] == 4 * ni + tri_offset(q, 5));
            assert(quad_emitted(vertices@, indices@, quads@[ni], ni, lod, min_height as int));
            assert forall|m2: int|
                0 <= m2 < n + 1 implies quad_emitted(
                    vertices@,
                    indices@,
                    #[trigger] quads@[m2],
                    m2,
                    lod,
                    min_height as int,
                ) by {
                if m2 < n {
                    assert(quad_emitted(old_vs, old_ids, quads@[m2], m2, lod, min_height as int));
                    assert(vertices@[4 * m2] == old_vs[4 * m2]);
                    assert(vertices@[4 * m2 + 1] == old_vs[4 * m2 + 1]);
                    assert(vertices@[4 * m2 + 2] == old_vs[4 * m2 + 2]);
                    assert(vertices@[4 * m2 + 3] == old_vs[4 * m2 + 3]);
                    assert(indices@[6 * m2] == old_ids[6 * m2]);
                    assert(indices@[6 * m2 + 1] == old_ids[6 * m2 + 1]);
                    assert(indices@[6 * m2 + 2] == old_ids[6 * m2 + 2]);
                    assert(indices@[6 * m2 + 3] == old_ids[6 * m2 + 3]);
                    assert(indices@[6 * m2 + 4] == old_ids[6 * m2 + 4]);
                    assert(indices@[6 * m2 + 5] == old_ids[6 * m2 + 5]);
                }
            }
        }
        n = n + 1;
    }
    MeshData { vertices, indices, lod, min_height, quads: Ghost(quads@) }
}

} // verus!

verus! {

/// The triangulation diagonal of every emitted quad separates the pair of
/// corners whose occlusion sum is minimal: both triangles of the quad share
/// corners 1 and 3 exactly when that pair carries the strictly larger sum,
/// and otherwise both share corners 2 and 4.
pub proof fn lemma_ao_diagonal(m: MeshData, n: int)
    requires
        m.wf(),
        0 <= n < m.quads@.len(),
    ensures
        ({
            let q = m.quads@[n];
            let ids = m.indices@;
            let base = 4 * n;
            let s = 6 * n;
            if q.ao.corner_1 + q.ao.corner_3 > q.ao.corner_2 + q.ao.corner_4 {
                ids[s] == base && (ids[s + 1] == base + 2 || ids[s + 2] == base + 2) && ids[s + 3]
                    == base && (ids[s + 4] == base + 2 || ids[s + 5] == base + 2)
            } else {
                (ids[s + 1] == base + 1 || ids[s + 2] == base + 1) && (ids[s + 1] == base + 3 || ids[s
                    + 2] == base + 3) && ids[s + 3] == base + 1 && (ids[s + 4] == base + 3 || ids[s
                    + 5] == base + 3)
            }
        }),
{
    assert(quad_emitted(m.vertices@, m.indices@, m.quads@[n], n, m.lod, m.min_height as int));
}

} // verus!
