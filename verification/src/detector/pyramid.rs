//! Image pyramid for multi-scale finder-pattern detection: downscaled copies
//! of a binary image allow a fast coarse search that is then refined at full
//! resolution.

use vstd::prelude::*;
use crate::models::matrix::BitMatrix;

verus! {

/// How many of the four cells of the 2x2 block at `(2x, 2y)` are dark.
pub open spec fn block_dark_count(m: BitMatrix, x: int, y: int) -> int {
    (if m.cell(2 * x, 2 * y) { 1int } else { 0int }) + (if m.cell(2 * x + 1, 2 * y) {
        1int
    } else {
        0int
    }) + (if m.cell(2 * x, 2 * y + 1) { 1int } else { 0int }) + (if m.cell(2 * x + 1, 2 * y + 1) {
        1int
    } else {
        0int
    })
}

/// `d` is `m` halved in each dimension, each cell dark when at least two of
/// the four cells of its 2x2 block are dark.
pub open spec fn is_half_scale(m: BitMatrix, d: BitMatrix) -> bool {
    &&& d.wf()
    &&& d.spec_width() == m.spec_width() / 2
    &&& d.spec_height() == m.spec_height() / 2
    &&& forall|x: int, y: int|
        #[trigger] d.cell(x, y) == (0 <= x < d.spec_width() && 0 <= y < d.spec_height()
            && block_dark_count(m, x, y) >= 2)
}

/// An image pyramid with up to three scales.
pub struct ImagePyramid {
    /// Original (full resolution) image
    pub level0: BitMatrix,
    /// Half resolution (0.5x)
    pub level1: Option<BitMatrix>,
    /// Quarter resolution (0.25x)
    pub level2: Option<BitMatrix>,
    /// Original dimensions
    pub original_width: usize,
    pub original_height: usize,
}

proof fn lemma_half_area(w: int, h: int)
    requires
        0 <= w,
        0 <= h,
        w * h + 7 <= usize::MAX,
    ensures
        (w / 2) * (h / 2) + 7 <= usize::MAX,
        (w / 2) * (h / 2) <= w * h,
{
    assert((w / 2) * (h / 2) <= w * h) by (nonlinear_arith)
        requires
            0 <= w,
            0 <= h,
    ;
}

impl ImagePyramid {
    /// Build the pyramid of `matrix`: the half-resolution level exists when
    /// both sides are at least 400, the quarter-resolution level when both
    /// are larger than 800.
    pub fn new(matrix: BitMatrix) -> (p: Self)
        requires
            matrix.wf(),
        ensures
            p.level0 == matrix,
            p.original_width == matrix.spec_width(),
            p.original_height == matrix.spec_height(),
            (matrix.spec_width() >= 400 && matrix.spec_height() >= 400) == p.level1.is_some(),
            (matrix.spec_width() > 800 && matrix.spec_height() > 800) == p.level2.is_some(),
            p.level1.is_some() ==> is_half_scale(matrix, p.level1.unwrap()),
            p.level2.is_some() ==> is_half_scale(p.level1.unwrap(), p.level2.unwrap()),
    {
        let width = matrix.width();
        let height = matrix.height();
        let level1 = if width >= 400 && height >= 400 {
            Some(Self::downscale_by_2(&matrix))
        } else {
            None
        };
        let level2 = if width > 800 && height > 800 {
            match &level1 {
                Some(l1) => Some(Self::downscale_by_2(l1)),
                None => None,
            }
        } else {
            None
        };
        ImagePyramid {
            original_width: width,
            original_height: height,
            level0: matrix,
            level1,
            level2,
        }
    }

    /// Halve `matrix` in each dimension by majority vote: a cell is dark when
    /// at least two of the four cells of its 2x2 block are dark.
    fn downscale_by_2(matrix: &BitMatrix) -> (result: BitMatrix)
        requires
            matrix.wf(),
        ensures
            is_half_scale(*matrix, result),
    {
        let src_width = matrix.width();
        let src_height = matrix.height();
        let dst_width = src_width / 2;
        let dst_height = src_height / 2;
        proof {
            lemma_half_area(src_width as int, src_height as int);
        }
        let mut result = BitMatrix::new(dst_width, dst_height);
        let mut y: usize = 0;
        while y < dst_height
            invariant
                matrix.wf(),
                src_width == matrix.spec_width(),
                src_height == matrix.spec_height(),
                dst_width == src_width / 2,
                dst_height == src_height / 2,
                result.wf(),
                result.spec_width() == dst_width,
                result.spec_height() == dst_height,
                0 <= y <= dst_height,
                forall|a: int, b: int|
                    #[trigger] result.cell(a, b) == (0 <= a < dst_width && 0 <= b < y
                        && block_dark_count(*matrix, a, b) >= 2),
            decreases dst_height - y,
        {
            let mut x: usize = 0;
            while x < dst_width
                invariant
                    matrix.wf(),
                    src_width == matrix.spec_width(),
                    src_height == matrix.spec_height(),
                    dst_width == src_width / 2,
                    dst_height == src_height / 2,
                    result.wf(),
                    result.spec_width() == dst_width,
                    result.spec_height() == dst_height,
                    0 <= y < dst_height,
                    0 <= x <= dst_width,
                    forall|a: int, b: int|
                        #[trigger] result.cell(a, b) == (0 <= a < dst_width && 0 <= b < dst_height
                            && (b < y || (b == y && a < x)) && block_dark_count(*matrix, a, b)
                            >= 2),
                decreases dst_width - x,
            {
                let src_y = y * 2;
                let src_x = x * 2;
                let mut black_count: u8 = 0;
                if matrix.get(src_x, src_y) {
                    black_count += 1;
                }
                if matrix.get(src_x + 1, src_y) {
                    black_count += 1;
                }
                if matrix.get(src_x, src_y + 1) {
                    black_count += 1;
                }
                if matrix.get(src_x + 1, src_y + 1) {
                    black_count += 1;
                }
                assert(black_count == block_dark_count(*matrix, x as int, y as int));
                if black_count >= 2 {
                    result.set(x, y, true);
                }
                x += 1;
            }
            y += 1;
        }
        result
    }

    /// The full-resolution level.
    pub fn full_resolution(&self) -> (m: &BitMatrix)
        ensures
            *m == self.level0,
    {
        &self.level0
    }
}


/// Whether `(dx, dy)` is one of the four offsets of a 2x2 block.
pub open spec fn block_offset(dx: int, dy: int) -> bool {
    0 <= dx <= 1 && 0 <= dy <= 1
}

/// In a half-scale image, a cell is dark as soon as any two distinct cells
/// of its 2x2 block in the full image are dark.
pub proof fn lemma_half_scale_two_dark(
    m: BitMatrix,
    d: BitMatrix,
    x: int,
    y: int,
    dx1: int,
    dy1: int,
    dx2: int,
    dy2: int,
)
    requires
        is_half_scale(m, d),
        0 <= x < d.spec_width(),
        0 <= y < d.spec_height(),
        block_offset(dx1, dy1),
        block_offset(dx2, dy2),
        dx1 != dx2 || dy1 != dy2,
        m.cell(2 * x + dx1, 2 * y + dy1),
        m.cell(2 * x + dx2, 2 * y + dy2),
    ensures
        d.cell(x, y),
{
    assert(d.cell(x, y) == (0 <= x < d.spec_width() && 0 <= y < d.spec_height()
        && block_dark_count(m, x, y) >= 2));
}

/// In a half-scale image, a cell is light when at most one cell of its 2x2
/// block in the full image is dark: all but (at most) the one at
/// `(dx, dy)` are light.
pub proof fn lemma_half_scale_one_dark(m: BitMatrix, d: BitMatrix, x: int, y: int, dx: int, dy: int)
    requires
        is_half_scale(m, d),
        block_offset(dx, dy),
        forall|ex: int, ey: int|
            block_offset(ex, ey) && (ex != dx || ey != dy) ==> !#[trigger] m.cell(
                2 * x + ex,
                2 * y + ey,
            ),
    ensures
        !d.cell(x, y),
{
    if !(dx == 0 && dy == 0) {
        assert(!m.cell(2 * x + 0, 2 * y + 0));
        assert(2 * x + 0 == 2 * x && 2 * y + 0 == 2 * y);
    }
    if !(dx == 1 && dy == 0) {
        assert(!m.cell(2 * x + 1, 2 * y + 0));
        assert(2 * y + 0 == 2 * y);
    }
    if !(dx == 0 && dy == 1) {
        assert(!m.cell(2 * x + 0, 2 * y + 1));
        assert(2 * x + 0 == 2 * x);
    }
    assert(!m.cell(2 * x + 1, 2 * y + 1) || (dx == 1 && dy == 1));
    assert(d.cell(x, y) == (0 <= x < d.spec_width() && 0 <= y < d.spec_height()
        && block_dark_count(m, x, y) >= 2));
}

/// Halving commutes with transposition: if `t` is `m` with rows and
/// columns swapped, then the half-scale image of `t` is that of `m` with
/// rows and columns swapped.
pub proof fn lemma_half_scale_transpose(m: BitMatrix, t: BitMatrix, dm: BitMatrix, dt: BitMatrix)
    requires
        forall|a: int, b: int| #[trigger] t.cell(a, b) == m.cell(b, a),
        t.spec_width() == m.spec_height(),
        t.spec_height() == m.spec_width(),
        is_half_scale(m, dm),
        is_half_scale(t, dt),
    ensures
        forall|a: int, b: int| #[trigger] dt.cell(a, b) == dm.cell(b, a),
{
    assert forall|a: int, b: int| #[trigger] dt.cell(a, b) == dm.cell(b, a) by {
        assert(t.cell(2 * a, 2 * b) == m.cell(2 * b, 2 * a));
        assert(t.cell(2 * a + 1, 2 * b) == m.cell(2 * b, 2 * a + 1));
        assert(t.cell(2 * a, 2 * b + 1) == m.cell(2 * b + 1, 2 * a));
        assert(t.cell(2 * a + 1, 2 * b + 1) == m.cell(2 * b + 1, 2 * a + 1));
        assert(dt.cell(a, b) == (0 <= a < dt.spec_width() && 0 <= b < dt.spec_height()
            && block_dark_count(t, a, b) >= 2));
        assert(dm.cell(b, a) == (0 <= b < dm.spec_width() && 0 <= a < dm.spec_height()
            && block_dark_count(m, b, a) >= 2));
    }
}

} // verus!
