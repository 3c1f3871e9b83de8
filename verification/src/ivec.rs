//! Small integer vectors used for voxel, chunk and tile coordinates.

use vstd::prelude::*;

verus! {

/// A three-component integer vector: a voxel or grid coordinate.
#[derive(Copy, Clone, Debug, PartialEq, Eq, Structural)]
pub struct IVec3 {
    pub x: i32,
    pub y: i32,
    pub z: i32,
}

/// A two-component integer vector: an XZ tile or footprint coordinate.
#[derive(Copy, Clone, Debug, PartialEq, Eq, Structural)]
pub struct IVec2 {
    pub x: i32,
    pub y: i32,
}

impl IVec3 {
    pub fn new(x: i32, y: i32, z: i32) -> (r: IVec3)
        ensures
            r == (IVec3 { x, y, z }),
    {
        IVec3 { x, y, z }
    }
}

impl IVec2 {
    pub fn new(x: i32, y: i32) -> (r: IVec2)
        ensures
            r == (IVec2 { x, y }),
    {
        IVec2 { x, y }
    }
}

} // verus!
