//! Building blocks of the proposal ensemble: view slots, the grid of scan
//! cells, glare suppression, padded summed-area tables and local-mean
//! binarization.

use vstd::prelude::*;
use crate::types::ProposalView;
use crate::utils::binarization::{box_sum, lemma_box_split_columns, lemma_box_split_rows, lemma_box_bounds, row_span_sum, lemma_row_span_split};
use crate::pipeline::grayscale_views::{luma_rounded, min_int, max_int};

verus! {

/// The slot of a view in per-view tables.
pub open spec fn spec_view_slot(view: ProposalView) -> usize {
    match view {
        ProposalView::Otsu => 0,
        ProposalView::Adaptive => 1,
        ProposalView::Sauvola => 2,
        ProposalView::GlareSuppressed => 3,
    }
}

/// The slot of `view` in per-view tables.
pub fn view_slot(view: ProposalView) -> (slot: usize)
    ensures
        slot == spec_view_slot(view),
{
    match view {
        ProposalView::Otsu => 0,
        ProposalView::Adaptive => 1,
        ProposalView::Sauvola => 2,
        ProposalView::GlareSuppressed => 3,
    }
}

/// Number of values `start, start + step, ...` below `end_exclusive`.
pub open spec fn spec_range_count(start: int, end_exclusive: int, step: int) -> int {
    if step == 0 || end_exclusive <= start {
        0
    } else {
        1 + (end_exclusive - start - 1) / step
    }
}

/// How many values a stepped range `start..end_exclusive` yields.
pub fn range_count(start: usize, end_exclusive: usize, step: usize) -> (n: usize)
    ensures
        n == spec_range_count(start as int, end_exclusive as int, step as int),
{
    if step == 0 || end_exclusive <= start {
        return 0;
    }
    let span = end_exclusive - start;
    assert((span - 1) / (step as int) <= span - 1) by {
        vstd::arithmetic::div_mod::lemma_div_is_ordered_by_denominator((span - 1) as int, 1, step as int);
    }
    1 + (span - 1) / step
}

/// Side of a scan cell for a `width` x `height` image: a twentieth-ish of the
/// shorter side, clamped to `8..=32`.
pub open spec fn scan_cell(width: int, height: int) -> int {
    let c = min_int(width, height) / 18;
    if c < 8 {
        8
    } else if c > 32 {
        32
    } else {
        c
    }
}

/// Upper bound on the number of raw candidates a scan can produce: one per
/// scan cell, zero for images under 5 pixels on a side.
pub open spec fn candidate_capacity(width: int, height: int) -> int {
    if width < 5 || height < 5 {
        0
    } else {
        let cell = scan_cell(width, height);
        let xs = spec_range_count(2, width - 2, cell);
        let ys = spec_range_count(2, height - 2, cell);
        if xs * ys > usize::MAX {
            usize::MAX as int
        } else {
            xs * ys
        }
    }
}

/// The number of scan cells of a `width` x `height` image.
pub fn estimate_candidate_capacity(width: usize, height: usize) -> (n: usize)
    ensures
        n == candidate_capacity(width as int, height as int),
{
    if width < 5 || height < 5 {
        return 0;
    }
    let m = if width < height {
        width
    } else {
        height
    };
    let c = m / 18;
    let cell = if c < 8 {
        8
    } else if c > 32 {
        32
    } else {
        c
    };
    let x_count = range_count(2, width - 2, cell);
    let y_count = range_count(2, height - 2, cell);
    match x_count.checked_mul(y_count) {
        Some(p) => p,
        None => usize::MAX,
    }
}

/// Luminance of each complete RGB triple of `image` into a `width * height`
/// buffer; pixels past the last triple stay zero.
pub fn rgb_to_grayscale(image: &[u8], width: usize, height: usize) -> (gray: Vec<u8>)
    requires
        image@.len() / 3 <= width * height,
        width * height <= usize::MAX,
    ensures
        gray@.len() == width * height,
        forall|i: int|
            0 <= i < gray@.len() ==> #[trigger] gray@[i] as int == if i < image@.len() / 3 {
                luma_rounded(image@[3 * i], image@[3 * i + 1], image@[3 * i + 2])
            } else {
                0
            },
{
    let total = width * height;
    let len = image.len();
    let n = len / 3;
    let mut gray: Vec<u8> = Vec::new();
    let mut i: usize = 0;
    while i < total
        invariant
            total == width * height,
            len == image@.len(),
            n == len / 3,
            n <= total,
            0 <= i <= total,
            gray@.len() == i,
            forall|k: int|
                0 <= k < i ==> #[trigger] gray@[k] as int == if k < n {
                    luma_rounded(image@[3 * k], image@[3 * k + 1], image@[3 * k + 2])
                } else {
                    0
                },
        decreases total - i,
    {
        if i < n {
            let r = image[3 * i] as u32;
            let g = image[3 * i + 1] as u32;
            let b = image[3 * i + 2] as u32;
            let y = (299 * r + 587 * g + 114 * b + 500) / 1000;
            gray.push(y as u8);
        } else {
            gray.push(0u8);
        }
        i += 1;
    }
    gray
}

/// Compress highlights: values above 220 keep a quarter of their excess.
pub open spec fn glare_suppressed(v: u8) -> int {
    if v > 220 {
        220 + (v - 220) / 4
    } else {
        v as int
    }
}

/// `gray` with every value above 220 compressed toward 220.
pub fn suppress_glare(gray: &[u8]) -> (out: Vec<u8>)
    ensures
        out@.len() == gray@.len(),
        forall|i: int| 0 <= i < out@.len() ==> #[trigger] out@[i] as int == glare_suppressed(gray@[i]),
{
    let mut out: Vec<u8> = Vec::new();
    let mut i: usize = 0;
    while i < gray.len()
        invariant
            0 <= i <= gray@.len(),
            out@.len() == i,
            forall|k: int| 0 <= k < i ==> #[trigger] out@[k] as int == glare_suppressed(gray@[k]),
        decreases gray@.len() - i,
    {
        let v = gray[i];
        let o = if v > 220 {
            220 + (v - 220) / 4
        } else {
            v
        };
        out.push(o);
        i += 1;
    }
    out
}

/// `table` is the summed-area table of `gray` padded with a zero first row
/// and column: entry `y * (width + 1) + x` is the sum over columns `0..x` and
/// rows `0..y`.
pub open spec fn is_padded_integral(table: Seq<u64>, gray: Seq<u8>, width: int, height: int, squared: bool) -> bool {
    &&& table.len() == (width + 1) * (height + 1)
    &&& forall|x: int, y: int|
        0 <= x <= width && 0 <= y <= height ==> #[trigger] table[y * (width + 1) + x] as int
            == box_sum(gray, width, 0, x, 0, y, squared)
}

proof fn lemma_padded_index(w: int, h: int, x: int, y: int)
    requires
        0 <= x <= w,
        0 <= y <= h,
    ensures
        0 <= y * (w + 1) + x < (w + 1) * (h + 1),
{
    assert(0 <= y * (w + 1) + x < (w + 1) * (h + 1)) by (nonlinear_arith)
        requires
            0 <= x <= w,
            0 <= y <= h,
    ;
}

proof fn lemma_padded_index_injective(w: int, x: int, y: int, a: int, b: int)
    requires
        0 <= x <= w,
        0 <= a <= w,
        0 <= y,
        0 <= b,
        y * (w + 1) + x == b * (w + 1) + a,
    ensures
        x == a,
        y == b,
{
    vstd::arithmetic::div_mod::lemma_fundamental_div_mod_converse(y * (w + 1) + x, w + 1, y, x);
    vstd::arithmetic::div_mod::lemma_fundamental_div_mod_converse(b * (w + 1) + a, w + 1, b, a);
}

fn padded_integral(input: &[u8], width: usize, height: usize, squared: bool) -> (table: Vec<u64>)
    requires
        input@.len() >= width * height,
        (width + 1) * (height + 1) <= usize::MAX,
        65025 * (width * height) <= u64::MAX,
    ensures
        is_padded_integral(table@, input@, width as int, height as int, squared),
{
    proof {
        assert(width * height <= (width + 1) * (height + 1)) by (nonlinear_arith);
        assert(width + 1 <= (width + 1) * (height + 1)) by (nonlinear_arith);
        assert(height + 1 <= (width + 1) * (height + 1)) by (nonlinear_arith);
    }
    let stride = width + 1;
    let len = stride * (height + 1);
    let mut table: Vec<u64> = vec![0u64; len];
    proof {
        assert forall|i: int| 0 <= i < len implies table@[i] == 0u64 by {
            assert(cloned::<u64>(0u64, table@[i]));
        }
        assert forall|x: int, y: int| 0 <= x <= width && 0 <= y <= 0 implies #[trigger] table@[y
            * (width + 1) + x] as int == box_sum(input@, width as int, 0, x, 0, y, squared) by {
            lemma_padded_index(width as int, height as int, x, y);
        }
        assert forall|b: int| 0 <= b <= height implies #[trigger] table@[b * (width + 1)] as int
            == box_sum(input@, width as int, 0, 0, 0, b, squared) by {
            lemma_padded_index(width as int, height as int, 0, b);
            lemma_box_bounds(input@, width as int, 0, 0, 0, b, squared);
        }
    }
    let mut y: usize = 0;
    while y < height
        invariant
            stride == width + 1,
            len == stride * (height + 1),
            len <= usize::MAX,
            width * height <= usize::MAX,
            input@.len() >= width * height,
            65025 * (width * height) <= u64::MAX,
            table@.len() == len,
            0 <= y <= height,
            forall|x: int, b: int|
                0 <= x <= width && 0 <= b <= y ==> #[trigger] table@[b * (width + 1) + x] as int
                    == box_sum(input@, width as int, 0, x, 0, b, squared),
            forall|b: int|
                0 <= b <= height ==> #[trigger] table@[b * (width + 1)] as int == box_sum(
                    input@,
                    width as int,
                    0,
                    0,
                    0,
                    b,
                    squared,
                ),
        decreases height - y,
    {
        let mut row_sum: u64 = 0;
        let mut x: usize = 0;
        while x < width
            invariant
                stride == width + 1,
                len == stride * (height + 1),
                len <= usize::MAX,
                width * height <= usize::MAX,
                input@.len() >= width * height,
                65025 * (width * height) <= u64::MAX,
                table@.len() == len,
                0 <= y < height,
                0 <= x <= width,
                row_sum as int == row_span_sum(input@, width as int, y as int, 0, x as int, squared),
                forall|a: int, b: int|
                    0 <= a <= width && 0 <= b <= y ==> #[trigger] table@[b * (width + 1) + a] as int
                        == box_sum(input@, width as int, 0, a, 0, b, squared),
                forall|a: int|
                    0 <= a <= x ==> #[trigger] table@[(y + 1) * (width + 1) + a] as int == box_sum(
                        input@,
                        width as int,
                        0,
                        a,
                        0,
                        y + 1,
                        squared,
                    ),
                forall|b: int|
                    0 <= b <= height ==> #[trigger] table@[b * (width + 1)] as int == box_sum(
                        input@,
                        width as int,
                        0,
                        0,
                        0,
                        b,
                        squared,
                    ),
            decreases width - x,
        {
            proof {
                crate::models::matrix::lemma_cell_index(width as int, height as int, x as int, y as int);
                lemma_padded_index(width as int, height as int, (x + 1) as int, (y + 1) as int);
                lemma_padded_index(width as int, height as int, (x + 1) as int, y as int);
                lemma_box_bounds(input@, width as int, 0, (x + 1) as int, 0, (y + 1) as int, squared);
                lemma_box_bounds(input@, width as int, 0, width as int, 0, height as int, squared);
                lemma_box_split_columns(input@, width as int, 0, (x + 1) as int, width as int, 0, (y + 1) as int, squared);
                lemma_box_split_rows(input@, width as int, 0, width as int, 0, (y + 1) as int, height as int, squared);
                lemma_box_bounds(input@, width as int, (x + 1) as int, width as int, 0, (y + 1) as int, squared);
                lemma_box_bounds(input@, width as int, 0, width as int, (y + 1) as int, height as int, squared);
                assert(max_term_bound(squared) * ((width as int) * (height as int)) <= u64::MAX) by (nonlinear_arith)
                    requires
                        65025 * (width * height) <= u64::MAX,
                        max_term_bound(squared) <= 65025,
                        width * height >= 0,
                ;
                lemma_row_span_split(input@, width as int, y as int, 0, x as int, (x + 1) as int, squared);
            }
            let v = input[y * width + x] as u64;
            assert(v * v <= 65025) by (nonlinear_arith)
                requires
                    v <= 255,
            ;
            let t = if squared {
                v * v
            } else {
                v
            };
            proof {
                crate::utils::binarization::lemma_row_span_bounds(input@, width as int, y as int, 0, (x + 1) as int, squared);
                assert(max_term_bound(squared) * (x + 1) <= max_term_bound(squared) * ((width as int) * (height as int))) by (nonlinear_arith)
                    requires
                        x + 1 <= width,
                        y < height,
                        max_term_bound(squared) >= 0,
                ;
                assert(crate::utils::binarization::max_term(squared) == max_term_bound(squared));
            }
            row_sum = row_sum + t;
            let above = table[y * stride + (x + 1)];
            let idx = (y + 1) * stride + (x + 1);
            let ghost before = table@;
            table.set(idx, above + row_sum);
            proof {
                assert forall|a: int, b: int|
                    0 <= a <= width && 0 <= b <= y implies #[trigger] table@[b * (width + 1) + a] as int
                    == box_sum(input@, width as int, 0, a, 0, b, squared) by {
                    lemma_padded_index(width as int, height as int, a, b);
                    if b * (width + 1) + a == idx {
                        lemma_padded_index_injective(width as int, a, b, (x + 1) as int, (y + 1) as int);
                    }
                }
                assert forall|a: int| 0 <= a <= x + 1 implies #[trigger] table@[(y + 1) * (width + 1)
                    + a] as int == box_sum(input@, width as int, 0, a, 0, y + 1, squared) by {
                    if a == x + 1 {
                    } else {
                        lemma_padded_index(width as int, height as int, a, (y + 1) as int);
                        if (y + 1) * (width + 1) + a == idx {
                            lemma_padded_index_injective(width as int, a, (y + 1) as int, (x + 1) as int, (y + 1) as int);
                        }
                    }
                }
                assert forall|b: int| 0 <= b <= height implies #[trigger] table@[b * (width + 1)] as int
                    == box_sum(input@, width as int, 0, 0, 0, b, squared) by {
                    lemma_padded_index(width as int, height as int, 0, b);
                    if b * (width + 1) == idx {
                        lemma_padded_index_injective(width as int, 0, b, (x + 1) as int, (y + 1) as int);
                    }
                }
            }
            x += 1;
        }
        y += 1;
    }
    proof {
        assert(len == (width + 1) * (height + 1));
    }
    table
}

/// The largest contribution of one pixel to a sum.
pub open spec fn max_term_bound(squared: bool) -> int {
    if squared {
        65025
    } else {
        255
    }
}

/// The padded summed-area table of `input`.
pub fn integral_u8(input: &[u8], width: usize, height: usize) -> (table: Vec<u64>)
    requires
        input@.len() >= width * height,
        (width + 1) * (height + 1) <= usize::MAX,
        65025 * (width * height) <= u64::MAX,
    ensures
        is_padded_integral(table@, input@, width as int, height as int, false),
{
    padded_integral(input, width, height, false)
}

/// The padded summed-area table of the squares of `input`.
pub fn integral_sq_u8(input: &[u8], width: usize, height: usize) -> (table: Vec<u64>)
    requires
        input@.len() >= width * height,
        (width + 1) * (height + 1) <= usize::MAX,
        65025 * (width * height) <= u64::MAX,
    ensures
        is_padded_integral(table@, input@, width as int, height as int, true),
{
    padded_integral(input, width, height, true)
}

/// Inclusion-exclusion over a padded summed-area table: the sum over columns
/// `x0..x1` and rows `y0..y1` is `d + a - b - c` of the four corner entries,
/// and the partial sums never go negative.
pub proof fn lemma_padded_rectangle(
    table: Seq<u64>,
    gray: Seq<u8>,
    width: int,
    height: int,
    x0: int,
    y0: int,
    x1: int,
    y1: int,
    squared: bool,
)
    requires
        is_padded_integral(table, gray, width, height, squared),
        0 <= x0 <= x1 <= width,
        0 <= y0 <= y1 <= height,
    ensures
        ({
            let s = width + 1;
            let a = table[y0 * s + x0] as int;
            let b = table[y0 * s + x1] as int;
            let c = table[y1 * s + x0] as int;
            let d = table[y1 * s + x1] as int;
            &&& b + c <= d + a
            &&& d + a - b - c == box_sum(gray, width, x0, x1, y0, y1, squared)
            &&& a <= d
        }),
{
    lemma_box_split_columns(gray, width, 0, x0, x1, 0, y1, squared);
    lemma_box_split_columns(gray, width, 0, x0, x1, 0, y0, squared);
    lemma_box_split_rows(gray, width, x0, x1, 0, y0, y1, squared);
    lemma_box_split_rows(gray, width, 0, x0, 0, y0, y1, squared);
    lemma_box_bounds(gray, width, x0, x1, y0, y1, squared);
    lemma_box_bounds(gray, width, x0, x1, 0, y0, squared);
    lemma_box_bounds(gray, width, 0, x0, y0, y1, squared);
    lemma_box_bounds(gray, width, x0, x1, 0, y1, squared);
}

/// The sum of the rectangle `[x0, x1) x [y0, y1)` read from a padded
/// summed-area table of a `width`-wide image.
pub fn rect_sum(integral: &[u64], width: usize, x0: usize, y0: usize, x1: usize, y1: usize) -> (s: u64)
    requires
        x0 <= x1 <= width,
        y0 <= y1,
        (y1 + 1) * (width + 1) <= integral@.len(),
        (y1 + 1) * (width + 1) <= usize::MAX,
        ({
            let st = width + 1;
            &&& integral@[y1 * st + x1] + integral@[y0 * st + x0] <= u64::MAX
            &&& integral@[y0 * st + x1] + integral@[y1 * st + x0] <= integral@[y1 * st + x1]
                + integral@[y0 * st + x0]
        }),
    ensures
        ({
            let st = width + 1;
            s == integral@[y1 * st + x1] + integral@[y0 * st + x0] - integral@[y0 * st + x1]
                - integral@[y1 * st + x0]
        }),
{
    proof {
        assert(y1 * (width + 1) + x1 < (y1 + 1) * (width + 1)) by (nonlinear_arith)
            requires
                x1 <= width,
        ;
        assert(width + 1 <= (y1 + 1) * (width + 1)) by (nonlinear_arith);
        assert(y0 * (width + 1) + x1 <= y1 * (width + 1) + x1) by (nonlinear_arith)
            requires
                y0 <= y1,
        ;
    }
    let stride = width + 1;
    let a = integral[y0 * stride + x0];
    let b = integral[y0 * stride + x1];
    let c = integral[y1 * stride + x0];
    let d = integral[y1 * stride + x1];
    d + a - b - c
}

/// Side of the local-mean window for a `width` x `height` image: a twentieth
/// of the shorter side, clamped to `9..=41` and made odd.
pub open spec fn mean_window(width: int, height: int) -> int {
    let c = min_int(width, height) / 20;
    let c2 = if c < 9 {
        9
    } else if c > 41 {
        41
    } else {
        c
    };
    if c2 % 2 == 0 {
        c2 + 1
    } else {
        c2
    }
}

/// Whether pixel `(x, y)` is dark under local-mean thresholding: it is zero,
/// or it lies at least 5 below the mean of the window of radius
/// `mean_window / 2` around it, clipped to the image.
pub open spec fn local_mean_dark(gray: Seq<u8>, width: int, height: int, x: int, y: int) -> bool {
    let r = mean_window(width, height) / 2;
    let x0 = max_int(x - r, 0);
    let x1 = min_int(x + r + 1, width);
    let y0 = max_int(y - r, 0);
    let y1 = min_int(y + r + 1, height);
    let area = (x1 - x0) * (y1 - y0);
    let g = gray[y * width + x] as int;
    g == 0 || (g + 5) * area <= box_sum(gray, width, x0, x1, y0, y1, false)
}

/// Local-mean binarization: 1 where a pixel is zero or at least 5 below the
/// mean of its window, 0 elsewhere. The window is at most 41 pixels on a
/// side, so sums and areas stay exact in single precision and the test
/// `value <= max(mean - 5, 0)` agrees with this integer form.
pub fn adaptive_mean_binarize(gray: &[u8], width: usize, height: usize, integral: &[u64]) -> (out:
    Vec<u8>)
    requires
        gray@.len() >= width * height,
        is_padded_integral(integral@, gray@, width as int, height as int, false),
        (width + 1) * (height + 1) <= usize::MAX,
        2 * 255 * (width * height) <= u64::MAX,
        width + 64 <= usize::MAX,
        height + 64 <= usize::MAX,
    ensures
        out@.len() == width * height,
        forall|x: int, y: int|
            0 <= x < width && 0 <= y < height ==> #[trigger] out@[y * width + x] == if local_mean_dark(
                gray@,
                width as int,
                height as int,
                x,
                y,
            ) {
                1u8
            } else {
                0u8
            },
{
    proof {
        assert(width * height <= (width + 1) * (height + 1)) by (nonlinear_arith);
    }
    let m = if width < height {
        width
    } else {
        height
    };
    let c = m / 20;
    let mut window = if c < 9 {
        9
    } else if c > 41 {
        41
    } else {
        c
    };
    if window % 2 == 0 {
        window += 1;
    }
    let radius = window / 2;
    assert(radius == mean_window(width as int, height as int) / 2);
    assert(radius <= 20);
    let mut out: Vec<u8> = Vec::new();
    let mut y: usize = 0;
    while y < height
        invariant
            gray@.len() >= width * height,
            is_padded_integral(integral@, gray@, width as int, height as int, false),
            (width + 1) * (height + 1) <= usize::MAX,
            width * height <= usize::MAX,
            2 * 255 * (width * height) <= u64::MAX,
            width + 64 <= usize::MAX,
            height + 64 <= usize::MAX,
            radius == mean_window(width as int, height as int) / 2,
            radius <= 20,
            0 <= y <= height,
            out@.len() == y * width,
            forall|i: int|
                0 <= i < out@.len() ==> #[trigger] out@[i] == if local_mean_dark(
                    gray@,
                    width as int,
                    height as int,
                    i % (width as int),
                    i / (width as int),
                ) {
                    1u8
                } else {
                    0u8
                },
        decreases height - y,
    {
        let y0 = y.saturating_sub(radius);
        let y1 = if y + radius + 1 < height {
            y + radius + 1
        } else {
            height
        };
        let mut x: usize = 0;
        while x < width
            invariant
                gray@.len() >= width * height,
                is_padded_integral(integral@, gray@, width as int, height as int, false),
                (width + 1) * (height + 1) <= usize::MAX,
                width * height <= usize::MAX,
                2 * 255 * (width * height) <= u64::MAX,
                width + 64 <= usize::MAX,
                height + 64 <= usize::MAX,
                radius == mean_window(width as int, height as int) / 2,
                radius <= 20,
                0 <= y < height,
                y0 == max_int(y - radius, 0),
                y1 == min_int(y + radius + 1, height as int),
                0 <= x <= width,
                out@.len() == y * width + x,
                forall|i: int|
                    0 <= i < out@.len() ==> #[trigger] out@[i] == if local_mean_dark(
                        gray@,
                        width as int,
                        height as int,
                        i % (width as int),
                        i / (width as int),
                    ) {
                        1u8
                    } else {
                        0u8
                    },
            decreases width - x,
        {
            let x0 = x.saturating_sub(radius);
            let x1 = if x + radius + 1 < width {
                x + radius + 1
            } else {
                width
            };
            proof {
                lemma_padded_rectangle(
                    integral@,
                    gray@,
                    width as int,
                    height as int,
                    x0 as int,
                    y0 as int,
                    x1 as int,
                    y1 as int,
                    false,
                );
                lemma_padded_index(width as int, height as int, x1 as int, y1 as int);
                lemma_box_bounds(gray@, width as int, 0, x1 as int, 0, y1 as int, false);
                lemma_box_bounds(gray@, width as int, 0, width as int, 0, height as int, false);
                lemma_box_split_columns(gray@, width as int, 0, x1 as int, width as int, 0, y1 as int, false);
                lemma_box_split_rows(gray@, width as int, 0, width as int, 0, y1 as int, height as int, false);
                lemma_box_bounds(gray@, width as int, x1 as int, width as int, 0, y1 as int, false);
                lemma_box_bounds(gray@, width as int, 0, width as int, y1 as int, height as int, false);
                lemma_box_bounds(gray@, width as int, 0, x0 as int, 0, y0 as int, false);
                assert(x1 * y1 <= width * height) by (nonlinear_arith)
                    requires
                        x1 <= width,
                        y1 <= height,
                ;
                assert(255 * (x1 * y1) <= 255 * (width * height)) by (nonlinear_arith)
                    requires
                        x1 * y1 <= width * height,
                ;
                assert(integral@[y1 * (width + 1) + x1] as int == box_sum(gray@, width as int, 0, x1 as int, 0, y1 as int, false));
                assert(((x1 as int) - 0) * ((y1 as int) - 0) == x1 * y1);
                assert(box_sum(gray@, width as int, 0, x1 as int, 0, y1 as int, false) <= 255 * (width * height));
                assert(integral@[y0 * (width + 1) + x0] <= integral@[y1 * (width + 1) + x1]);
                assert(integral@[y1 * (width + 1) + x1] <= 255 * (width * height));
                let wh = width * height;
                assert(2 * 255 * wh == 2 * (255 * wh)) by (nonlinear_arith);
                assert((y1 + 1) * (width + 1) <= (width + 1) * (height + 1)) by (nonlinear_arith)
                    requires
                        y1 <= height,
                ;
                crate::models::matrix::lemma_cell_index(width as int, height as int, x as int, y as int);
                lemma_flat_index_pv(width as int, x as int, y as int, y * width + x);
                assert((x1 - x0) * (y1 - y0) <= 41 * 41) by (nonlinear_arith)
                    requires
                        0 <= x1 - x0 <= 2 * radius + 1,
                        0 <= y1 - y0 <= 2 * radius + 1,
                        radius <= 20,
                ;
            }
            let area = ((x1 - x0) * (y1 - y0)) as u64;
            assert(integral@[y1 * (width + 1) + x1] + integral@[y0 * (width + 1) + x0] <= u64::MAX);
            assert(integral@[y0 * (width + 1) + x1] + integral@[y1 * (width + 1) + x0] <= integral@[y1 * (width + 1) + x1]
                + integral@[y0 * (width + 1) + x0]);
            let sum = rect_sum(integral, width, x0, y0, x1, y1);
            let g = gray[y * width + x] as u64;
            assert((g + 5) * area <= 260 * 1681) by (nonlinear_arith)
                requires
                    g <= 255,
                    area <= 1681,
            ;
            let dark = g == 0 || (g + 5) * area <= sum;
            out.push(if dark { 1u8 } else { 0u8 });
            x += 1;
        }
        proof {
            assert(out@.len() == (y + 1) * width) by (nonlinear_arith)
                requires
                    out@.len() == y * width + width,
            ;
        }
        y += 1;
    }
    proof {
        assert(out@.len() == width * height) by (nonlinear_arith)
            requires
                out@.len() == height * width,
        ;
        assert forall|x: int, y: int| 0 <= x < width && 0 <= y < height implies #[trigger] out@[y
            * width + x] == if local_mean_dark(gray@, width as int, height as int, x, y) {
            1u8
        } else {
            0u8
        } by {
            crate::models::matrix::lemma_cell_index(width as int, height as int, x, y);
            lemma_flat_index_pv(width as int, x, y, y * width + x);
        }
    }
    out
}

proof fn lemma_flat_index_pv(w: int, x: int, y: int, i: int)
    requires
        0 <= x < w,
        0 <= y,
        i == y * w + x,
    ensures
        i / w == y,
        i % w == x,
{
    vstd::arithmetic::div_mod::lemma_fundamental_div_mod_converse(i, w, y, x);
}

} // verus!
