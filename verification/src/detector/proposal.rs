//! Grid checks of the finder-proposal stage.

use vstd::prelude::*;
use crate::models::matrix::BitMatrix;

verus! {

/// Whether the signed position `(x, y)` lies inside the grid of `matrix`.
pub fn in_bounds(matrix: &BitMatrix, x: isize, y: isize) -> (b: bool)
    ensures
        b == (0 <= x < matrix.spec_width() && 0 <= y < matrix.spec_height()),
{
    x >= 0 && y >= 0 && (x as usize) < matrix.width() && (y as usize) < matrix.height()
}

} // verus!
