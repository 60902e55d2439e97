//! Support of the contour-based finder detector, a fallback that looks for
//! finder-like square regions among connected components.

use vstd::prelude::*;
use crate::models::matrix::BitMatrix;

verus! {

/// The contour-based finder-pattern detector.
pub struct ContourDetector;

/// Dark cells of row `y` in columns `[x0, x1)`.
pub open spec fn row_dark(m: BitMatrix, y: int, x0: int, x1: int) -> int
    decreases x1 - x0,
{
    if x1 <= x0 {
        0
    } else {
        row_dark(m, y, x0, x1 - 1) + if m.cell(x1 - 1, y) {
            1int
        } else {
            0int
        }
    }
}

/// Dark cells in columns `[x0, x1)` of rows `[y0, y1)`.
pub open spec fn rect_dark(m: BitMatrix, x0: int, x1: int, y0: int, y1: int) -> int
    decreases y1 - y0,
{
    if y1 <= y0 {
        0
    } else {
        rect_dark(m, x0, x1, y0, y1 - 1) + row_dark(m, y1 - 1, x0, x1)
    }
}

proof fn lemma_row_dark_bound(m: BitMatrix, y: int, x0: int, x1: int)
    requires
        0 <= x0,
    ensures
        0 <= row_dark(m, y, x0, x1),
        row_dark(m, y, x0, x1) <= if 0 <= y < m.spec_height() {
            m.spec_width() as int
        } else {
            0
        },
        row_dark(m, y, x0, x1) <= if x1 > x0 { x1 - x0 } else { 0 },
    decreases x1 - x0,
{
    if x1 > x0 {
        lemma_row_dark_bound(m, y, x0, x1 - 1);
        if x1 - 1 >= m.spec_width() {
            if x1 - 1 > x0 {
                lemma_row_dark_bound(m, y, x0, x1 - 1);
            }
        }
        lemma_row_dark_cells(m, y, x0, x1);
    }
}

proof fn lemma_row_dark_cells(m: BitMatrix, y: int, x0: int, x1: int)
    requires
        0 <= x0,
    ensures
        row_dark(m, y, x0, x1) <= if x1 > m.spec_width() {
            if m.spec_width() > x0 { m.spec_width() - x0 } else { 0 }
        } else if x1 > x0 {
            x1 - x0
        } else {
            0
        },
    decreases x1 - x0,
{
    if x1 > x0 {
        lemma_row_dark_cells(m, y, x0, x1 - 1);
    }
}

proof fn lemma_rect_dark_bound(m: BitMatrix, x0: int, x1: int, y0: int, y1: int)
    requires
        0 <= x0,
        0 <= y0,
    ensures
        0 <= rect_dark(m, x0, x1, y0, y1) <= (m.spec_width() as int) * (if y1 > m.spec_height() {
            if m.spec_height() > y0 { m.spec_height() - y0 } else { 0 }
        } else if y1 > y0 {
            y1 - y0
        } else {
            0
        }),
    decreases y1 - y0,
{
    if y1 > y0 {
        lemma_rect_dark_bound(m, x0, x1, y0, y1 - 1);
        lemma_row_dark_bound(m, y1 - 1, x0, x1);
        let w = m.spec_width() as int;
        let h = m.spec_height() as int;
        let prev = if y1 - 1 > h {
            if h > y0 { h - y0 } else { 0 }
        } else if y1 - 1 > y0 {
            y1 - 1 - y0
        } else {
            0
        };
        let cur = if y1 > h {
            if h > y0 { h - y0 } else { 0 }
        } else if y1 > y0 {
            y1 - y0
        } else {
            0
        };
        if y1 - 1 < h {
            assert(cur == prev + 1);
            assert(w * prev + w == w * cur) by (nonlinear_arith)
                requires
                    cur == prev + 1,
            ;
        } else {
            assert(cur == prev);
        }
    }
}

/// Number of dark cells in the inclusive box `[min_x, max_x] x [min_y,
/// max_y]`; cells outside the grid read as light.
pub fn black_pixels_in_bbox(
    matrix: &BitMatrix,
    min_x: usize,
    min_y: usize,
    max_x: usize,
    max_y: usize,
) -> (black: usize)
    requires
        matrix.wf(),
    ensures
        black == rect_dark(*matrix, min_x as int, max_x + 1, min_y as int, max_y + 1),
{
    let mut black: usize = 0;
    let ghost w = matrix.spec_width() as int;
    let ghost h = matrix.spec_height() as int;
    let mut yy: u128 = min_y as u128;
    let end_y: u128 = max_y as u128 + 1;
    let end_x: u128 = max_x as u128 + 1;
    if yy >= end_y {
        return 0;
    }
    while yy < end_y
        invariant
            matrix.wf(),
            w == matrix.spec_width(),
            h == matrix.spec_height(),
            min_y <= yy <= end_y,
            end_y == max_y + 1,
            end_x == max_x + 1,
            black == rect_dark(*matrix, min_x as int, end_x as int, min_y as int, yy as int),
        decreases end_y - yy,
    {
        let y = yy as usize;
        let ghost before = black as int;
        let mut xx: u128 = min_x as u128;
        while xx < end_x
            invariant
                matrix.wf(),
                w == matrix.spec_width(),
                h == matrix.spec_height(),
                min_y <= yy < end_y,
                y == yy,
                end_x == max_x + 1,
                min_x <= xx || end_x <= min_x,
                xx <= end_x || end_x <= min_x,
                xx >= min_x,
                end_x <= min_x ==> xx == min_x,
                before == rect_dark(*matrix, min_x as int, end_x as int, min_y as int, yy as int),
                black == before + row_dark(*matrix, y as int, min_x as int, xx as int),
            decreases end_x - xx,
        {
            let x = xx as usize;
            if matrix.get(x, y) {
                proof {
                    lemma_rect_dark_bound(*matrix, min_x as int, end_x as int, min_y as int, yy + 1);
                    lemma_row_dark_bound(*matrix, y as int, min_x as int, xx + 1);
                    lemma_row_dark_bound(*matrix, y as int, xx + 1, end_x as int);
                    lemma_row_split(*matrix, y as int, min_x as int, xx + 1, end_x as int);
                    assert(w * (if yy + 1 > h { if h > min_y { h - min_y } else { 0 } } else if yy
                        + 1 > min_y { yy + 1 - min_y } else { 0 }) <= w * h) by (nonlinear_arith)
                        requires
                            w >= 0,
                            h >= 0,
                            min_y >= 0,
                    ;
                    assert(w * h <= usize::MAX);
                }
                black += 1;
            }
            xx += 1;
        }
        assert(black == rect_dark(*matrix, min_x as int, end_x as int, min_y as int, yy + 1));
        yy += 1;
    }
    black
}

proof fn lemma_row_split(m: BitMatrix, y: int, x0: int, xm: int, x1: int)
    requires
        x0 <= xm <= x1,
    ensures
        row_dark(m, y, x0, x1) == row_dark(m, y, x0, xm) + row_dark(m, y, xm, x1),
    decreases x1 - xm,
{
    if x1 > xm {
        lemma_row_split(m, y, x0, xm, x1 - 1);
    }
}

} // verus!
