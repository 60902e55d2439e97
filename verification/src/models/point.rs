//! Integer grid points.

use vstd::prelude::*;

verus! {

/// Integer point for grid coordinates
#[derive(Debug, Clone, Copy, PartialEq, Eq, Default, Structural)]
pub struct PointI {
    /// X coordinate
    pub x: i32,
    /// Y coordinate
    pub y: i32,
}

impl PointI {
    /// Create a new integer point
    pub fn new(x: i32, y: i32) -> (p: Self)
        ensures
            p.x == x,
            p.y == y,
    {
        Self { x, y }
    }
}

} // verus!
