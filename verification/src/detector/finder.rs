//! Cheap structural checks used by the 1:1:3:1:1 finder-pattern scanner to
//! skip rows and columns that cannot hold a pattern, and the integer
//! screening of five runs before a full ratio test.

use vstd::prelude::*;
use crate::models::matrix::BitMatrix;

verus! {

/// The `k`-th sample of a scan line: every fourth cell of row `fixed`
/// (`vertical == false`) or of column `fixed` (`vertical == true`).
pub open spec fn line_sample(m: BitMatrix, fixed: int, k: int, vertical: bool) -> bool {
    if vertical {
        m.cell(fixed, 4 * k)
    } else {
        m.cell(4 * k, fixed)
    }
}

/// How many times consecutive samples `0..n` of a scan line change colour.
pub open spec fn sample_transitions(m: BitMatrix, fixed: int, n: int, vertical: bool) -> int
    decreases n,
{
    if n <= 1 {
        0
    } else {
        sample_transitions(m, fixed, n - 1, vertical) + if line_sample(m, fixed, n - 1, vertical)
            != line_sample(m, fixed, n - 2, vertical) {
            1int
        } else {
            0int
        }
    }
}

/// The number of samples of a line of `len` cells: positions `0, 4, 8, ...`
/// below `len`, and always at least the first.
pub open spec fn sample_count(len: int) -> int {
    if len <= 4 {
        1
    } else {
        (len + 3) / 4
    }
}

proof fn lemma_transitions_monotone(m: BitMatrix, fixed: int, a: int, b: int, vertical: bool)
    requires
        a <= b,
    ensures
        sample_transitions(m, fixed, a, vertical) <= sample_transitions(m, fixed, b, vertical),
    decreases b - a,
{
    if a < b {
        lemma_transitions_monotone(m, fixed, a, b - 1, vertical);
    }
}

/// The run-length finder-pattern detector.
pub struct FinderDetector;

impl FinderDetector {
    fn sampled_line_has_edges(matrix: &BitMatrix, fixed: usize, len: usize, vertical: bool) -> (b:
        bool)
        requires
            matrix.wf(),
        ensures
            b == (sample_transitions(*matrix, fixed as int, sample_count(len as int), vertical)
                >= 2),
    {
        let mut transitions: usize = 0;
        let mut prev_color = if vertical {
            matrix.get(fixed, 0)
        } else {
            matrix.get(0, fixed)
        };
        let count: usize = if len <= 4 {
            1
        } else {
            len / 4 + if len % 4 != 0 {
                1
            } else {
                0
            }
        };
        assert(count == sample_count(len as int));
        let mut k: usize = 1;
        while k < count
            invariant
                matrix.wf(),
                count == sample_count(len as int),
                1 <= k <= count,
                4 * (count - 1) < len || count == 1,
                transitions == sample_transitions(*matrix, fixed as int, k as int, vertical),
                transitions <= 2,
                prev_color == line_sample(*matrix, fixed as int, k - 1, vertical),
            decreases count - k,
        {
            let pos = 4 * k;
            let color = if vertical {
                matrix.get(fixed, pos)
            } else {
                matrix.get(pos, fixed)
            };
            if color != prev_color {
                transitions += 1;
                prev_color = color;
                if transitions >= 3 {
                    proof {
                        lemma_transitions_monotone(
                            *matrix,
                            fixed as int,
                            k + 1,
                            sample_count(len as int),
                            vertical,
                        );
                    }
                    return true;
                }
            }
            k += 1;
        }
        transitions >= 2
    }

    /// Whether row `y` changes colour at least twice over the samples taken
    /// at every fourth column below `width`.
    pub fn has_significant_edges(matrix: &BitMatrix, y: usize, width: usize) -> (b: bool)
        requires
            matrix.wf(),
        ensures
            b == (sample_transitions(*matrix, y as int, sample_count(width as int), false) >= 2),
    {
        Self::sampled_line_has_edges(matrix, y, width, false)
    }

    /// Whether column `x` changes colour at least twice over the samples
    /// taken at every fourth row below `height`; `false` for no rows.
    pub fn has_significant_edges_column(matrix: &BitMatrix, x: usize, height: usize) -> (b: bool)
        requires
            matrix.wf(),
        ensures
            b == (height > 0 && sample_transitions(*matrix, x as int, sample_count(height as int), true)
                >= 2),
    {
        if height == 0 {
            return false;
        }
        Self::sampled_line_has_edges(matrix, x, height, true)
    }

    /// Whether five runs (black, white, black, white, black) can be a finder
    /// pattern: seven to 2000 pixels in all, every run at least two pixels,
    /// the centre black one and a half to five times the smaller outer
    /// black, and each white between half and twice the average outer run.
    pub fn quick_ratio_check(lengths: &[usize]) -> (plausible: bool)
        requires
            lengths@.len() == 5,
            lengths@[0] + lengths@[1] + lengths@[2] + lengths@[3] + lengths@[4] <= usize::MAX,
        ensures
            plausible == spec_quick_ratio(
                lengths@[0] as int,
                lengths@[1] as int,
                lengths@[2] as int,
                lengths@[3] as int,
                lengths@[4] as int,
            ),
    {
        let b1 = lengths[0];
        let w1 = lengths[1];
        let b2 = lengths[2];
        let w2 = lengths[3];
        let b3 = lengths[4];
        let total = b1 + w1 + b2 + w2 + b3;
        if total < 7 || total > 2000 {
            return false;
        }
        if b1 < 2 || w1 < 2 || b2 < 2 || w2 < 2 || b3 < 2 {
            return false;
        }
        let b2_min = if b1 < b3 { b1 } else { b3 };
        if b2 < b2_min * 3 / 2 || b2 > b2_min * 5 {
            return false;
        }
        let outer_avg = (b1 + b3 + w1 + w2) / 4;
        let w1_ok = w1 >= outer_avg / 2 && w1 <= outer_avg * 2;
        let w2_ok = w2 >= outer_avg / 2 && w2 <= outer_avg * 2;
        w1_ok && w2_ok
    }
}

/// The screening of five run lengths `b1, w1, b2, w2, b3` before the ratio
/// test of a finder pattern.
pub open spec fn spec_quick_ratio(b1: int, w1: int, b2: int, w2: int, b3: int) -> bool {
    let total = b1 + w1 + b2 + w2 + b3;
    let smaller_outer = if b1 < b3 { b1 } else { b3 };
    let outer_avg = (b1 + b3 + w1 + w2) / 4;
    &&& 7 <= total <= 2000
    &&& b1 >= 2 && w1 >= 2 && b2 >= 2 && w2 >= 2 && b3 >= 2
    &&& smaller_outer * 3 / 2 <= b2 <= smaller_outer * 5
    &&& outer_avg / 2 <= w1 <= outer_avg * 2
    &&& outer_avg / 2 <= w2 <= outer_avg * 2
}


/// The ratio screen without minima: five runs pass exactly when they total
/// 7 to 2000 pixels, each is at least 2, the centre black is at least one
/// and a half times one of the outer blacks (rounded down) and at most five
/// times each of them, and each white is at least half (rounded down) and
/// at most twice the quarter (rounded down) of the outer four runs.
pub proof fn lemma_quick_ratio_exact(b1: int, w1: int, b2: int, w2: int, b3: int)
    requires
        b1 >= 0,
        w1 >= 0,
        b2 >= 0,
        w2 >= 0,
        b3 >= 0,
    ensures
        spec_quick_ratio(b1, w1, b2, w2, b3) == ({
            let q = (b1 + b3 + w1 + w2) / 4;
            &&& 7 <= b1 + w1 + b2 + w2 + b3 <= 2000
            &&& b1 >= 2 && w1 >= 2 && b2 >= 2 && w2 >= 2 && b3 >= 2
            &&& (3 * b1 <= 2 * b2 + 1 || 3 * b3 <= 2 * b2 + 1)
            &&& b2 <= 5 * b1 && b2 <= 5 * b3
            &&& q <= 2 * w1 + 1 && w1 <= 2 * q
            &&& q <= 2 * w2 + 1 && w2 <= 2 * q
        }),
{
    let m = if b1 < b3 { b1 } else { b3 };
    let q = (b1 + b3 + w1 + w2) / 4;
    assert((m * 3 / 2 <= b2) == (3 * m <= 2 * b2 + 1));
    assert((q / 2 <= w1) == (q <= 2 * w1 + 1));
    assert((q / 2 <= w2) == (q <= 2 * w2 + 1));
}

/// The screen is symmetric: reading the five runs backwards gives the same
/// answer.
pub proof fn lemma_quick_ratio_mirror(b1: int, w1: int, b2: int, w2: int, b3: int)
    ensures
        spec_quick_ratio(b1, w1, b2, w2, b3) == spec_quick_ratio(b3, w2, b2, w1, b1),
{
    assert(b1 + b3 + w1 + w2 == b3 + b1 + w2 + w1);
}

} // verus!
