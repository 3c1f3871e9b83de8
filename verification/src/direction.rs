//! Face directions for meshing. A face direction is an axis and a sign; each
//! slice of the grid perpendicular to that axis is scanned in a rotated frame
//! of (slice, width, height) coordinates.

use vstd::prelude::*;

verus! {

/// A coordinate axis of the voxel grid.
#[derive(Copy, Clone, Debug, PartialEq, Eq, Structural)]
pub enum Axis {
    X,
    Y,
    Z,
}

/// Grid x-coordinate of the face cell at (slice `i`, width `w`, height `h`).
pub open spec fn cell_x(axis: Axis, i: int, w: int, h: int) -> int {
    match axis {
        Axis::X => i,
        Axis::Y => h,
        Axis::Z => w,
    }
}

/// Grid y-coordinate of the face cell at (slice `i`, width `w`, height `h`).
pub open spec fn cell_y(axis: Axis, i: int, w: int, h: int) -> int {
    match axis {
        Axis::X => h,
        Axis::Y => i,
        Axis::Z => h,
    }
}

/// Grid z-coordinate of the face cell at (slice `i`, width `w`, height `h`).
pub open spec fn cell_z(axis: Axis, i: int, w: int, h: int) -> int {
    match axis {
        Axis::X => w,
        Axis::Y => w,
        Axis::Z => i,
    }
}

/// Unit step along the face direction: +1 or -1 on `axis`, 0 elsewhere,
/// returned as the offset of each coordinate.
pub open spec fn dir_step(positive: bool) -> int {
    if positive {
        1
    } else {
        -1
    }
}

/// The face of a block that a direction exposes.
pub open spec fn spec_face_of(axis: Axis, positive: bool) -> crate::block_type::BlockFace {
    match axis {
        Axis::X => if positive {
            crate::block_type::BlockFace::Right
        } else {
            crate::block_type::BlockFace::Left
        },
        Axis::Y => if positive {
            crate::block_type::BlockFace::Top
        } else {
            crate::block_type::BlockFace::Bottom
        },
        Axis::Z => if positive {
            crate::block_type::BlockFace::Front
        } else {
            crate::block_type::BlockFace::Back
        },
    }
}

/// The face of a block exposed toward (`axis`, `positive`).
pub fn face_of(axis: Axis, positive: bool) -> (r: crate::block_type::BlockFace)
    ensures
        r == spec_face_of(axis, positive),
{
    match axis {
        Axis::X => if positive {
            crate::block_type::BlockFace::Right
        } else {
            crate::block_type::BlockFace::Left
        },
        Axis::Y => if positive {
            crate::block_type::BlockFace::Top
        } else {
            crate::block_type::BlockFace::Bottom
        },
        Axis::Z => if positive {
            crate::block_type::BlockFace::Front
        } else {
            crate::block_type::BlockFace::Back
        },
    }
}

} // verus!
