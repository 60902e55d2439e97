//! Grayscale-to-binary conversion: global threshold, Otsu's threshold and
//! local-mean adaptive thresholding over integral images.

use vstd::prelude::*;
use crate::models::matrix::{BitMatrix, lemma_cell_index};
use crate::utils::otsu::{calculate_otsu_threshold, is_otsu_threshold, lemma_otsu_threshold_unique, pixel_sum};

verus! {

/// The grayscale value of pixel `(x, y)` in a row-major image of the given width.
pub open spec fn gray_at(gray: Seq<u8>, width: int, x: int, y: int) -> int {
    gray[y * width + x] as int
}

/// A pixel's contribution to a sum: its value, or its square.
pub open spec fn term(v: u8, squared: bool) -> int {
    if squared { (v as int) * (v as int) } else { v as int }
}

/// Largest contribution of one pixel.
pub open spec fn max_term(squared: bool) -> int {
    if squared { 65025 } else { 255 }
}

/// Sum of the pixels of row `y` in columns `[x0, x1)`.
pub open spec fn row_span_sum(gray: Seq<u8>, width: int, y: int, x0: int, x1: int, squared: bool) -> int
    decreases x1 - x0,
{
    if x1 <= x0 {
        0
    } else {
        row_span_sum(gray, width, y, x0, x1 - 1, squared) + term(gray[y * width + x1 - 1], squared)
    }
}

/// Sum of the pixels in columns `[x0, x1)` of rows `[y0, y1)`.
pub open spec fn box_sum(
    gray: Seq<u8>,
    width: int,
    x0: int,
    x1: int,
    y0: int,
    y1: int,
    squared: bool,
) -> int
    decreases y1 - y0,
{
    if y1 <= y0 {
        0
    } else {
        box_sum(gray, width, x0, x1, y0, y1 - 1, squared) + row_span_sum(gray, width, y1 - 1, x0, x1, squared)
    }
}

/// `table` is the summed-area table of `gray`: entry `y * width + x` holds the
/// sum over columns `0..=x` and rows `0..=y`.
pub open spec fn is_integral_image(
    table: Seq<int>,
    gray: Seq<u8>,
    width: int,
    height: int,
    squared: bool,
) -> bool {
    &&& table.len() >= width * height
    &&& forall|x: int, y: int|
        0 <= x < width && 0 <= y < height ==> #[trigger] table[y * width + x] == box_sum(
            gray,
            width,
            0,
            x + 1,
            0,
            y + 1,
            squared,
        )
}

/// A table entry, reading as 0 left of column 0 and above row 0.
pub open spec fn corner(table: Seq<int>, width: int, x: int, y: int) -> int {
    if x < 0 || y < 0 { 0 } else { table[y * width + x] }
}

/// The inclusion-exclusion value of the inclusive rectangle `(x1, y1)..=(x2, y2)`.
pub open spec fn corner_formula(table: Seq<int>, width: int, x1: int, y1: int, x2: int, y2: int) -> int {
    corner(table, width, x2, y2) - corner(table, width, x1 - 1, y2) - corner(table, width, x2, y1 - 1)
        + corner(table, width, x1 - 1, y1 - 1)
}

pub open spec fn u32_table(t: Seq<u32>) -> Seq<int> {
    t.map_values(|v: u32| v as int)
}

pub open spec fn u64_table(t: Seq<u64>) -> Seq<int> {
    t.map_values(|v: u64| v as int)
}

/// A row's span sums split at any middle column.
pub proof fn lemma_row_span_split(gray: Seq<u8>, width: int, y: int, x0: int, xm: int, x1: int, squared: bool)
    requires
        x0 <= xm <= x1,
    ensures
        row_span_sum(gray, width, y, x0, x1, squared) == row_span_sum(gray, width, y, x0, xm, squared)
            + row_span_sum(gray, width, y, xm, x1, squared),
    decreases x1 - xm,
{
    if x1 > xm {
        lemma_row_span_split(gray, width, y, x0, xm, x1 - 1, squared);
    }
}

/// Box sums split at any middle column.
pub proof fn lemma_box_split_columns(
    gray: Seq<u8>,
    width: int,
    x0: int,
    xm: int,
    x1: int,
    y0: int,
    y1: int,
    squared: bool,
)
    requires
        x0 <= xm <= x1,
    ensures
        box_sum(gray, width, x0, x1, y0, y1, squared) == box_sum(gray, width, x0, xm, y0, y1, squared)
            + box_sum(gray, width, xm, x1, y0, y1, squared),
    decreases y1 - y0,
{
    if y1 > y0 {
        lemma_box_split_columns(gray, width, x0, xm, x1, y0, y1 - 1, squared);
        lemma_row_span_split(gray, width, y1 - 1, x0, xm, x1, squared);
    }
}

/// Box sums split at any middle row.
pub proof fn lemma_box_split_rows(
    gray: Seq<u8>,
    width: int,
    x0: int,
    x1: int,
    y0: int,
    ym: int,
    y1: int,
    squared: bool,
)
    requires
        y0 <= ym <= y1,
    ensures
        box_sum(gray, width, x0, x1, y0, y1, squared) == box_sum(gray, width, x0, x1, y0, ym, squared)
            + box_sum(gray, width, x0, x1, ym, y1, squared),
    decreases y1 - ym,
{
    if y1 > ym {
        lemma_box_split_rows(gray, width, x0, x1, y0, ym, y1 - 1, squared);
    }
}

/// Row span sums lie between 0 and the largest term times the span.
pub proof fn lemma_row_span_bounds(gray: Seq<u8>, width: int, y: int, x0: int, x1: int, squared: bool)
    requires
        x0 <= x1,
    ensures
        0 <= row_span_sum(gray, width, y, x0, x1, squared) <= max_term(squared) * (x1 - x0),
    decreases x1 - x0,
{
    if x1 > x0 {
        lemma_row_span_bounds(gray, width, y, x0, x1 - 1, squared);
        let v = gray[y * width + x1 - 1];
        assert(0 <= term(v, squared) <= max_term(squared)) by (nonlinear_arith)
            requires
                0 <= v <= 255,
                term(v, squared) == if squared { (v as int) * (v as int) } else { v as int },
                max_term(squared) == if squared { 65025int } else { 255int };
        let m = max_term(squared);
        assert(m * (x1 - 1 - x0) + m == m * (x1 - x0)) by (nonlinear_arith);
    }
}

/// Box sums lie between 0 and the largest term times the area.
pub proof fn lemma_box_bounds(gray: Seq<u8>, width: int, x0: int, x1: int, y0: int, y1: int, squared: bool)
    requires
        x0 <= x1,
        y0 <= y1,
    ensures
        0 <= box_sum(gray, width, x0, x1, y0, y1, squared) <= max_term(squared) * ((x1 - x0) * (y1 - y0)),
    decreases y1 - y0,
{
    if y1 > y0 {
        lemma_box_bounds(gray, width, x0, x1, y0, y1 - 1, squared);
        lemma_row_span_bounds(gray, width, y1 - 1, x0, x1, squared);
        let m = max_term(squared);
        assert(m * ((x1 - x0) * (y1 - 1 - y0)) + m * (x1 - x0) == m * ((x1 - x0) * (y1 - y0)))
            by (nonlinear_arith);
    }
}

/// Inclusion-exclusion over a summed-area table gives the sum of the
/// inclusive rectangle, and its partial differences are never negative.
pub proof fn lemma_integral_rectangle(
    table: Seq<int>,
    gray: Seq<u8>,
    width: int,
    height: int,
    x1: int,
    y1: int,
    x2: int,
    y2: int,
    squared: bool,
)
    requires
        is_integral_image(table, gray, width, height, squared),
        0 <= x1 <= x2 < width,
        0 <= y1 <= y2 < height,
    ensures
        corner_formula(table, width, x1, y1, x2, y2) == box_sum(gray, width, x1, x2 + 1, y1, y2 + 1, squared),
        corner(table, width, x2, y2) - corner(table, width, x1 - 1, y2) == box_sum(
            gray,
            width,
            x1,
            x2 + 1,
            0,
            y2 + 1,
            squared,
        ),
        corner(table, width, x2, y1 - 1) - corner(table, width, x1 - 1, y1 - 1) == box_sum(
            gray,
            width,
            x1,
            x2 + 1,
            0,
            y1,
            squared,
        ),
        0 <= box_sum(gray, width, x1, x2 + 1, 0, y1, squared),
        box_sum(gray, width, x1, x2 + 1, 0, y1, squared) <= box_sum(gray, width, x1, x2 + 1, 0, y2 + 1, squared),
{
    // corners as box sums from the origin
    assert(corner(table, width, x2, y2) == box_sum(gray, width, 0, x2 + 1, 0, y2 + 1, squared));
    if x1 > 0 {
        assert(corner(table, width, x1 - 1, y2) == box_sum(gray, width, 0, x1, 0, y2 + 1, squared));
    } else {
        assert(box_sum(gray, width, 0, 0, 0, y2 + 1, squared) == 0) by {
            lemma_box_bounds(gray, width, 0, 0, 0, y2 + 1, squared);
        }
    }
    if y1 > 0 {
        assert(corner(table, width, x2, y1 - 1) == box_sum(gray, width, 0, x2 + 1, 0, y1, squared));
        if x1 > 0 {
            assert(corner(table, width, x1 - 1, y1 - 1) == box_sum(gray, width, 0, x1, 0, y1, squared));
        } else {
            assert(box_sum(gray, width, 0, 0, 0, y1, squared) == 0) by {
                lemma_box_bounds(gray, width, 0, 0, 0, y1, squared);
            }
        }
    } else {
        assert(box_sum(gray, width, 0, x2 + 1, 0, 0, squared) == 0);
        assert(box_sum(gray, width, 0, x1, 0, 0, squared) == 0);
    }
    lemma_box_split_columns(gray, width, 0, x1, x2 + 1, 0, y2 + 1, squared);
    lemma_box_split_columns(gray, width, 0, x1, x2 + 1, 0, y1, squared);
    lemma_box_split_rows(gray, width, x1, x2 + 1, 0, y1, y2 + 1, squared);
    lemma_box_bounds(gray, width, x1, x2 + 1, 0, y1, squared);
    lemma_box_bounds(gray, width, x1, x2 + 1, y1, y2 + 1, squared);
}

/// Overwrite every cell of `binary` with whether the pixel is below `threshold`.
fn fill_below_threshold(gray: &[u8], width: usize, height: usize, threshold: u8, binary: &mut BitMatrix)
    requires
        gray@.len() >= width * height,
        old(binary).wf(),
        old(binary).width() == width,
        old(binary).height() == height,
    ensures
        final(binary).wf(),
        final(binary).width() == width,
        final(binary).height() == height,
        forall|x: int, y: int|
            0 <= x < width && 0 <= y < height ==> #[trigger] final(binary).cell(x, y) == (gray_at(
                gray@,
                width as int,
                x,
                y,
            ) < threshold),
{
    let mut y: usize = 0;
    while y < height
        invariant
            binary.wf(),
            binary.width() == width,
            binary.height() == height,
            gray@.len() >= width * height,
            y <= height,
            forall|a: int, b: int|
                0 <= a < width && 0 <= b < y ==> #[trigger] binary.cell(a, b) == (gray_at(
                    gray@,
                    width as int,
                    a,
                    b,
                ) < threshold),
        decreases height - y,
    {
        let mut x: usize = 0;
        while x < width
            invariant
                binary.wf(),
                binary.width() == width,
                binary.height() == height,
                gray@.len() >= width * height,
                y < height,
                x <= width,
                forall|a: int, b: int|
                    0 <= a < width && 0 <= b < height && (b < y || (b == y && a < x))
                        ==> #[trigger] binary.cell(a, b) == (gray_at(gray@, width as int, a, b) < threshold),
            decreases width - x,
        {
            proof {
                lemma_cell_index(width as int, height as int, x as int, y as int);
            }
            let idx = y * width + x;
            binary.set(x, y, gray[idx] < threshold);
            x = x + 1;
        }
        y = y + 1;
    }
}

/// Simple global threshold binarization: a pixel is dark exactly when its
/// value is below `threshold`.
pub fn threshold_binarize(gray: &[u8], width: usize, height: usize, threshold: u8) -> (binary: BitMatrix)
    requires
        width * height + 7 <= usize::MAX,
        gray@.len() >= width * height,
    ensures
        binary.wf(),
        binary.width() == width,
        binary.height() == height,
        forall|x: int, y: int|
            0 <= x < width && 0 <= y < height ==> #[trigger] binary.cell(x, y) == (gray_at(
                gray@,
                width as int,
                x,
                y,
            ) < threshold),
{
    let mut binary = BitMatrix::new(width, height);
    fill_below_threshold(gray, width, height, threshold, &mut binary);
    binary
}

proof fn lemma_area_bound(w: int, h: int, x: int, y: int, m: int)
    requires
        0 <= x < w,
        0 <= y < h,
        m >= 0,
    ensures
        m * ((x + 1) * (y + 1)) <= m * (w * h),
        m * (x + 1) <= m * (w * h),
{
    assert((x + 1) * (y + 1) <= w * h) by (nonlinear_arith)
        requires 0 <= x < w, 0 <= y < h;
    assert(x + 1 <= w * h) by (nonlinear_arith)
        requires 0 <= x < w, 0 <= y < h;
    assert(m * ((x + 1) * (y + 1)) <= m * (w * h)) by (nonlinear_arith)
        requires (x + 1) * (y + 1) <= w * h, m >= 0;
    assert(m * (x + 1) <= m * (w * h)) by (nonlinear_arith)
        requires x + 1 <= w * h, m >= 0;
}

/// The sum of the pixels of the image, the whole `width` x `height` grid.
pub open spec fn image_sum(gray: Seq<u8>, width: int, height: int) -> int {
    box_sum(gray, width, 0, width, 0, height, false)
}

/// A box anchored at the origin sums to no more than a larger such box.
proof fn lemma_origin_box_monotone(gray: Seq<u8>, width: int, x1: int, y1: int, x2: int, y2: int)
    requires
        0 <= x1 <= x2,
        0 <= y1 <= y2,
    ensures
        box_sum(gray, width, 0, x1, 0, y1, false) <= box_sum(gray, width, 0, x2, 0, y2, false),
{
    lemma_box_split_columns(gray, width, 0, x1, x2, 0, y1, false);
    lemma_box_bounds(gray, width, x1, x2, 0, y1, false);
    lemma_box_split_rows(gray, width, 0, x2, 0, y1, y2, false);
    lemma_box_bounds(gray, width, 0, x2, y1, y2, false);
}

/// Build the summed-area table of `gray` into `integral`, which ends with
/// exactly `width * height` entries.
pub fn build_integral_image_into(gray: &[u8], width: usize, height: usize, integral: &mut Vec<u32>)
    requires
        width * height <= usize::MAX,
        image_sum(gray@, width as int, height as int) <= u32::MAX,
        gray@.len() >= width * height,
    ensures
        final(integral)@.len() == width * height,
        is_integral_image(u32_table(final(integral)@), gray@, width as int, height as int, false),
{
    let len = width * height;
    integral.resize(len, 0u32);
    let mut y: usize = 0;
    while y < height
        invariant
            width * height <= usize::MAX,
            image_sum(gray@, width as int, height as int) <= u32::MAX,
            gray@.len() >= width * height,
            len == width * height,
            integral@.len() == len,
            y <= height,
            forall|a: int, b: int|
                0 <= a < width && 0 <= b < y ==> #[trigger] integral@[b * width + a] as int == box_sum(
                    gray@,
                    width as int,
                    0,
                    a + 1,
                    0,
                    b + 1,
                    false,
                ),
        decreases height - y,
    {
        let mut row_sum: u32 = 0;
        let mut x: usize = 0;
        while x < width
            invariant
                width * height <= usize::MAX,
            image_sum(gray@, width as int, height as int) <= u32::MAX,
                gray@.len() >= width * height,
                len == width * height,
                integral@.len() == len,
                y < height,
                x <= width,
                row_sum as int == row_span_sum(gray@, width as int, y as int, 0, x as int, false),
                forall|a: int, b: int|
                    0 <= a < width && 0 <= b < height && (b < y || (b == y && a < x))
                        ==> #[trigger] integral@[b * width + a] as int == box_sum(
                        gray@,
                        width as int,
                        0,
                        a + 1,
                        0,
                        b + 1,
                        false,
                    ),
            decreases width - x,
        {
            proof {
                lemma_cell_index(width as int, height as int, x as int, y as int);
                lemma_row_span_bounds(gray@, width as int, y as int, 0, x as int + 1, false);
                lemma_box_bounds(gray@, width as int, 0, x as int + 1, 0, y as int + 1, false);
                lemma_origin_box_monotone(
                    gray@,
                    width as int,
                    x as int + 1,
                    y as int + 1,
                    width as int,
                    height as int,
                );
                lemma_box_bounds(gray@, width as int, 0, x as int + 1, 0, y as int, false);
                assert(box_sum(gray@, width as int, 0, x as int + 1, 0, y as int + 1, false) == box_sum(
                    gray@, width as int, 0, x as int + 1, 0, y as int, false) + row_span_sum(
                    gray@, width as int, y as int, 0, x as int + 1, false));
            }
            let idx = y * width + x;
            row_sum = row_sum + gray[idx] as u32;
            let value = if y == 0 {
                row_sum
            } else {
                proof {
                    lemma_cell_index(width as int, height as int, x as int, y as int - 1);
                }
                integral[(y - 1) * width + x] + row_sum
            };
            proof {
                assert(row_sum as int == row_span_sum(gray@, width as int, y as int, 0, x as int + 1, false));
                if y > 0 {
                    let up = (y as int - 1) * width + x;
                    assert(integral@[up] as int == box_sum(gray@, width as int, 0, x as int + 1, 0, y as int, false));
                }
                assert(box_sum(gray@, width as int, 0, x as int + 1, 0, 0, false) == 0);
                assert(box_sum(gray@, width as int, 0, x as int + 1, 0, y as int + 1, false) == box_sum(
                    gray@, width as int, 0, x as int + 1, 0, y as int, false) + row_span_sum(
                    gray@, width as int, y as int, 0, x as int + 1, false));
                assert(value as int == box_sum(gray@, width as int, 0, x as int + 1, 0, y as int + 1, false));
            }
            integral.set(idx, value);
            proof {
                assert forall|a: int, b: int|
                    0 <= a < width && 0 <= b < height && (b < y || (b == y && a < x + 1))
                        implies #[trigger] integral@[b * width + a] as int == box_sum(
                        gray@,
                        width as int,
                        0,
                        a + 1,
                        0,
                        b + 1,
                        false,
                    ) by {
                    lemma_cell_index(width as int, height as int, a, b);
                    if b * width + a == idx {
                        crate::models::matrix::lemma_cell_index_injective(
                            width as int,
                            x as int,
                            y as int,
                            a,
                            b,
                        );
                    }
                }
            }
            x = x + 1;
        }
        y = y + 1;
    }
    proof {
        let t = u32_table(integral@);
        assert forall|x: int, y: int| 0 <= x < width && 0 <= y < height implies #[trigger] t[y
            * width + x] == box_sum(gray@, width as int, 0, x + 1, 0, y + 1, false) by {
            lemma_cell_index(width as int, height as int, x, y);
        }
    }
}

/// Build the summed-area table of squared pixel values of `gray` into `integral_sq_sq`, which ends with
/// exactly `width * height` entries.
pub fn build_integral_sq_image_into(gray: &[u8], width: usize, height: usize, integral_sq: &mut Vec<u64>)
    requires
        65025 * (width * height) <= u64::MAX,
        width * height <= usize::MAX,
        gray@.len() >= width * height,
    ensures
        final(integral_sq)@.len() == width * height,
        is_integral_image(u64_table(final(integral_sq)@), gray@, width as int, height as int, true),
{
    let len = width * height;
    integral_sq.resize(len, 0u64);
    let mut y: usize = 0;
    while y < height
        invariant
            65025 * (width * height) <= u64::MAX,
            gray@.len() >= width * height,
            len == width * height,
            integral_sq@.len() == len,
            y <= height,
            forall|a: int, b: int|
                0 <= a < width && 0 <= b < y ==> #[trigger] integral_sq@[b * width + a] as int == box_sum(
                    gray@,
                    width as int,
                    0,
                    a + 1,
                    0,
                    b + 1,
                    true,
                ),
        decreases height - y,
    {
        let mut row_sum: u64 = 0;
        let mut x: usize = 0;
        while x < width
            invariant
                65025 * (width * height) <= u64::MAX,
                gray@.len() >= width * height,
                len == width * height,
                integral_sq@.len() == len,
                y < height,
                x <= width,
                row_sum as int == row_span_sum(gray@, width as int, y as int, 0, x as int, true),
                forall|a: int, b: int|
                    0 <= a < width && 0 <= b < height && (b < y || (b == y && a < x))
                        ==> #[trigger] integral_sq@[b * width + a] as int == box_sum(
                        gray@,
                        width as int,
                        0,
                        a + 1,
                        0,
                        b + 1,
                        true,
                    ),
            decreases width - x,
        {
            proof {
                lemma_cell_index(width as int, height as int, x as int, y as int);
                lemma_row_span_bounds(gray@, width as int, y as int, 0, x as int + 1, true);
                lemma_box_bounds(gray@, width as int, 0, x as int + 1, 0, y as int + 1, true);
                lemma_area_bound(width as int, height as int, x as int, y as int, 65025);
            }
            let idx = y * width + x;
            let v = gray[idx] as u64;
            proof {
                assert(v * v <= 65025) by (nonlinear_arith) requires v <= 255;
            }
            row_sum = row_sum + v * v;
            let value = if y == 0 {
                row_sum
            } else {
                proof {
                    lemma_cell_index(width as int, height as int, x as int, y as int - 1);
                }
                integral_sq[(y - 1) * width + x] + row_sum
            };
            proof {
                assert(row_sum as int == row_span_sum(gray@, width as int, y as int, 0, x as int + 1, true));
                if y > 0 {
                    let up = (y as int - 1) * width + x;
                    assert(integral_sq@[up] as int == box_sum(gray@, width as int, 0, x as int + 1, 0, y as int, true));
                }
                assert(box_sum(gray@, width as int, 0, x as int + 1, 0, 0, true) == 0);
                assert(box_sum(gray@, width as int, 0, x as int + 1, 0, y as int + 1, true) == box_sum(
                    gray@, width as int, 0, x as int + 1, 0, y as int, true) + row_span_sum(
                    gray@, width as int, y as int, 0, x as int + 1, true));
                assert(value as int == box_sum(gray@, width as int, 0, x as int + 1, 0, y as int + 1, true));
            }
            integral_sq.set(idx, value);
            proof {
                assert forall|a: int, b: int|
                    0 <= a < width && 0 <= b < height && (b < y || (b == y && a < x + 1))
                        implies #[trigger] integral_sq@[b * width + a] as int == box_sum(
                        gray@,
                        width as int,
                        0,
                        a + 1,
                        0,
                        b + 1,
                        true,
                    ) by {
                    lemma_cell_index(width as int, height as int, a, b);
                    if b * width + a == idx {
                        crate::models::matrix::lemma_cell_index_injective(
                            width as int,
                            x as int,
                            y as int,
                            a,
                            b,
                        );
                    }
                }
            }
            x = x + 1;
        }
        y = y + 1;
    }
    proof {
        let t = u64_table(integral_sq@);
        assert forall|x: int, y: int| 0 <= x < width && 0 <= y < height implies #[trigger] t[y
            * width + x] == box_sum(gray@, width as int, 0, x + 1, 0, y + 1, true) by {
            lemma_cell_index(width as int, height as int, x, y);
        }
    }
}


/// Build the summed-area table of `gray`.
pub fn build_integral_image(gray: &[u8], width: usize, height: usize) -> (integral: Vec<u32>)
    requires
        width * height <= usize::MAX,
        image_sum(gray@, width as int, height as int) <= u32::MAX,
        gray@.len() >= width * height,
    ensures
        integral@.len() == width * height,
        is_integral_image(u32_table(integral@), gray@, width as int, height as int, false),
{
    let mut integral = vec![0u32; width * height];
    build_integral_image_into(gray, width, height, &mut integral);
    integral
}

/// Build the summed-area table of squared pixel values of `gray`.
pub fn build_integral_sq_image(gray: &[u8], width: usize, height: usize) -> (integral_sq: Vec<u64>)
    requires
        65025 * (width * height) <= u64::MAX,
        width * height <= usize::MAX,
        gray@.len() >= width * height,
    ensures
        integral_sq@.len() == width * height,
        is_integral_image(u64_table(integral_sq@), gray@, width as int, height as int, true),
{
    let mut integral_sq = vec![0u64; width * height];
    build_integral_sq_image_into(gray, width, height, &mut integral_sq);
    integral_sq
}

proof fn lemma_corner_indices(width: int, x1: int, y1: int, x2: int, y2: int)
    requires
        0 <= x1 <= x2 < width,
        0 <= y1 <= y2,
    ensures
        0 <= y2 * width + x1 - 1 || x1 == 0,
        y2 * width + x1 - 1 < y2 * width + x2,
        y1 > 0 ==> 0 <= (y1 - 1) * width + x2 < y2 * width + x2,
        y1 > 0 && x1 > 0 ==> 0 <= (y1 - 1) * width + x1 - 1 < y2 * width + x2,
        y1 > 0 ==> 0 <= (y1 - 1) * width <= y2 * width,
        0 <= y2 * width + x2,
        0 <= y2 * width,
{
    assert(0 <= y2 * width) by (nonlinear_arith) requires 0 <= y2, 0 <= width;
    if y1 > 0 {
        assert(0 <= (y1 - 1) * width) by (nonlinear_arith) requires y1 >= 1, width >= 0;
        assert((y1 - 1) * width <= y2 * width - width) by (nonlinear_arith)
            requires y1 - 1 <= y2 - 1, width >= 0;
    }
}

/// Sum of the inclusive rectangle `(x1, y1)..=(x2, y2)` by inclusion-exclusion
/// over a summed-area table.
pub fn query_integral_sum(
    integral: &[u32],
    width: usize,
    _height: usize,
    x1: usize,
    y1: usize,
    x2: usize,
    y2: usize,
) -> (sum: u32)
    requires
        x1 <= x2 < width,
        y1 <= y2,
        y2 * width + x2 < integral@.len(),
        corner(u32_table(integral@), width as int, x2 as int, y2 as int) >= corner(
            u32_table(integral@),
            width as int,
            x1 - 1,
            y2 as int,
        ),
        corner(u32_table(integral@), width as int, x2 as int, y1 - 1) >= corner(
            u32_table(integral@),
            width as int,
            x1 - 1,
            y1 - 1,
        ),
        corner(u32_table(integral@), width as int, x2 as int, y2 as int) - corner(
            u32_table(integral@),
            width as int,
            x1 - 1,
            y2 as int,
        ) >= corner(u32_table(integral@), width as int, x2 as int, y1 - 1) - corner(
            u32_table(integral@),
            width as int,
            x1 - 1,
            y1 - 1,
        ),
    ensures
        sum as int == corner_formula(u32_table(integral@), width as int, x1 as int, y1 as int, x2 as int, y2 as int),
{
    let _n = integral.len();
    proof {
        lemma_corner_indices(width as int, x1 as int, y1 as int, x2 as int, y2 as int);
    }
    let a = if x1 > 0 && y1 > 0 {
        let row = (y1 - 1) * width;
        assert(row + (x1 - 1) < integral@.len());
        integral[row + (x1 - 1)]
    } else {
        0
    };
    let b = if y1 > 0 {
        integral[(y1 - 1) * width + x2]
    } else {
        0
    };
    let c = if x1 > 0 {
        let row = y2 * width;
        assert(row + (x1 - 1) < integral@.len());
        integral[row + (x1 - 1)]
    } else {
        0
    };
    let d = integral[y2 * width + x2];
    (d - c) - (b - a)
}

/// Sum of squared values over the inclusive rectangle `(x1, y1)..=(x2, y2)`
/// by inclusion-exclusion over a summed-area table.
pub fn query_integral_sq_sum(
    integral_sq: &[u64],
    width: usize,
    x1: usize,
    y1: usize,
    x2: usize,
    y2: usize,
) -> (sum: u64)
    requires
        x1 <= x2 < width,
        y1 <= y2,
        y2 * width + x2 < integral_sq@.len(),
        corner(u64_table(integral_sq@), width as int, x2 as int, y2 as int) >= corner(
            u64_table(integral_sq@),
            width as int,
            x1 - 1,
            y2 as int,
        ),
        corner(u64_table(integral_sq@), width as int, x2 as int, y1 - 1) >= corner(
            u64_table(integral_sq@),
            width as int,
            x1 - 1,
            y1 - 1,
        ),
        corner(u64_table(integral_sq@), width as int, x2 as int, y2 as int) - corner(
            u64_table(integral_sq@),
            width as int,
            x1 - 1,
            y2 as int,
        ) >= corner(u64_table(integral_sq@), width as int, x2 as int, y1 - 1) - corner(
            u64_table(integral_sq@),
            width as int,
            x1 - 1,
            y1 - 1,
        ),
    ensures
        sum as int == corner_formula(u64_table(integral_sq@), width as int, x1 as int, y1 as int, x2 as int, y2 as int),
{
    let _n = integral_sq.len();
    proof {
        lemma_corner_indices(width as int, x1 as int, y1 as int, x2 as int, y2 as int);
    }
    let a = if x1 > 0 && y1 > 0 {
        let row = (y1 - 1) * width;
        assert(row + (x1 - 1) < integral_sq@.len());
        integral_sq[row + (x1 - 1)]
    } else {
        0
    };
    let b = if y1 > 0 {
        integral_sq[(y1 - 1) * width + x2]
    } else {
        0
    };
    let c = if x1 > 0 {
        let row = y2 * width;
        assert(row + (x1 - 1) < integral_sq@.len());
        integral_sq[row + (x1 - 1)]
    } else {
        0
    };
    let d = integral_sq[y2 * width + x2];
    (d - c) - (b - a)
}


/// Lower end of a window of half-size `half` around coordinate `c`, clipped at 0.
pub open spec fn window_lo(c: int, half: int) -> int {
    if c >= half { c - half } else { 0 }
}

/// Upper end (inclusive) of a window of half-size `half` around `c`, clipped at `n - 1`.
pub open spec fn window_hi(c: int, half: int, n: int) -> int {
    if c + half <= n - 1 { c + half } else { n - 1 }
}

/// Mean (rounded down) of the pixels in the clipped `window`-sized square
/// around `(x, y)`.
pub open spec fn local_mean(gray: Seq<u8>, width: int, height: int, window: int, x: int, y: int) -> int {
    let half = window / 2;
    let x1 = window_lo(x, half);
    let y1 = window_lo(y, half);
    let x2 = window_hi(x, half, width);
    let y2 = window_hi(y, half, height);
    box_sum(gray, width, x1, x2 + 1, y1, y2 + 1, false) / ((x2 - x1 + 1) * (y2 - y1 + 1))
}

/// Whether adaptive thresholding marks pixel `(x, y)` dark: its value is
/// below the mean of its window.
pub open spec fn adaptive_dark(gray: Seq<u8>, width: int, height: int, window: int, x: int, y: int) -> bool {
    gray_at(gray, width, x, y) < local_mean(gray, width, height, window, x, y)
}

/// The preconditions shared by the adaptive binarizers.
pub open spec fn adaptive_inputs_ok(gray: Seq<u8>, width: int, height: int, window: int) -> bool {
    &&& window_span(width, window) * window_span(height, window) <= u32::MAX
    &&& width * height + 7 <= usize::MAX
    &&& image_sum(gray, width, height) <= u32::MAX
    &&& gray.len() >= width * height
    &&& width + window / 2 <= usize::MAX
    &&& height + window / 2 <= usize::MAX
}

proof fn lemma_mean_bound(sum: int, count: int)
    requires
        0 <= sum <= 255 * count,
        count > 0,
    ensures
        0 <= sum / count <= 255,
{
    assert(sum / count <= 255) by (nonlinear_arith)
        requires 0 <= sum <= 255 * count, count > 0;
    assert(0 <= sum / count) by (nonlinear_arith)
        requires 0 <= sum, count > 0;
}

/// The most pixels a clipped window of size `window` covers along a side of
/// `n` pixels.
pub open spec fn window_span(n: int, window: int) -> int {
    if n < 2 * (window / 2) + 1 {
        n
    } else {
        2 * (window / 2) + 1
    }
}

/// Inputs fit for a window fit for any smaller window too.
pub proof fn lemma_smaller_window_ok(gray: Seq<u8>, width: int, height: int, small: int, big: int)
    requires
        adaptive_inputs_ok(gray, width, height, big),
        0 <= small,
        small / 2 <= big / 2,
        width >= 0,
        height >= 0,
    ensures
        adaptive_inputs_ok(gray, width, height, small),
{
    let (sw, bw) = (window_span(width, small), window_span(width, big));
    let (sh, bh) = (window_span(height, small), window_span(height, big));
    assert(sw * sh <= bw * bh) by (nonlinear_arith)
        requires 0 <= sw <= bw, 0 <= sh <= bh;
}

proof fn lemma_window_area(w: int, h: int, r: int, x1: int, x2: int, y1: int, y2: int)
    requires
        0 <= x1 <= x2 < w,
        0 <= y1 <= y2 < h,
        x2 - x1 <= 2 * r,
        y2 - y1 <= 2 * r,
        r >= 0,
    ensures
        1 <= (x2 - x1 + 1) * (y2 - y1 + 1) <= w * h,
        (x2 - x1 + 1) * (y2 - y1 + 1) <= (if w < 2 * r + 1 { w } else { 2 * r + 1 }) * (if h < 2
            * r + 1 {
            h
        } else {
            2 * r + 1
        }),
{
    let sw = if w < 2 * r + 1 { w } else { 2 * r + 1 };
    let sh = if h < 2 * r + 1 { h } else { 2 * r + 1 };
    assert(1 <= (x2 - x1 + 1) * (y2 - y1 + 1) <= w * h) by (nonlinear_arith)
        requires 0 <= x1 <= x2 < w, 0 <= y1 <= y2 < h;
    assert((x2 - x1 + 1) * (y2 - y1 + 1) <= sw * sh) by (nonlinear_arith)
        requires 1 <= x2 - x1 + 1 <= sw, 1 <= y2 - y1 + 1 <= sh;
}

/// Mark each pixel dark when it is below the mean of its clipped window,
/// reading window sums from the summed-area table `integral` of `gray`.
#[verifier::rlimit(50)]
#[verifier::spinoff_prover]
pub fn adaptive_binarize_core(
    gray: &[u8],
    width: usize,
    height: usize,
    window_size: usize,
    binary: &mut BitMatrix,
    integral: &[u32],
)
    requires
        adaptive_inputs_ok(gray@, width as int, height as int, window_size as int),
        is_integral_image(u32_table(integral@), gray@, width as int, height as int, false),
        old(binary).wf(),
        old(binary).width() == width,
        old(binary).height() == height,
    ensures
        final(binary).wf(),
        final(binary).width() == width,
        final(binary).height() == height,
        forall|x: int, y: int|
            0 <= x < width && 0 <= y < height ==> #[trigger] final(binary).cell(x, y) == adaptive_dark(
                gray@,
                width as int,
                height as int,
                window_size as int,
                x,
                y,
            ),
{
    let half_window = window_size / 2;
    let mut y: usize = 0;
    while y < height
        invariant
            adaptive_inputs_ok(gray@, width as int, height as int, window_size as int),
            is_integral_image(u32_table(integral@), gray@, width as int, height as int, false),
            half_window == window_size / 2,
            binary.wf(),
            binary.width() == width,
            binary.height() == height,
            y <= height,
            forall|a: int, b: int|
                0 <= a < width && 0 <= b < y ==> #[trigger] binary.cell(a, b) == adaptive_dark(
                    gray@,
                    width as int,
                    height as int,
                    window_size as int,
                    a,
                    b,
                ),
        decreases height - y,
    {
        let mut x: usize = 0;
        while x < width
            invariant
                adaptive_inputs_ok(gray@, width as int, height as int, window_size as int),
                is_integral_image(u32_table(integral@), gray@, width as int, height as int, false),
                half_window == window_size / 2,
                binary.wf(),
                binary.width() == width,
                binary.height() == height,
                y < height,
                x <= width,
                forall|a: int, b: int|
                    0 <= a < width && 0 <= b < height && (b < y || (b == y && a < x))
                        ==> #[trigger] binary.cell(a, b) == adaptive_dark(
                        gray@,
                        width as int,
                        height as int,
                        window_size as int,
                        a,
                        b,
                    ),
            decreases width - x,
        {
            proof {
                lemma_cell_index(width as int, height as int, x as int, y as int);
            }
            let idx = y * width + x;
            let x1 = x.saturating_sub(half_window);
            let y1 = y.saturating_sub(half_window);
            let x2 = if x + half_window < width - 1 { x + half_window } else { width - 1 };
            let y2 = if y + half_window < height - 1 { y + half_window } else { height - 1 };
            proof {
                lemma_window_area(
                    width as int,
                    height as int,
                    half_window as int,
                    x1 as int,
                    x2 as int,
                    y1 as int,
                    y2 as int,
                );
                lemma_integral_rectangle(
                    u32_table(integral@),
                    gray@,
                    width as int,
                    height as int,
                    x1 as int,
                    y1 as int,
                    x2 as int,
                    y2 as int,
                    false,
                );
                lemma_cell_index(width as int, height as int, x2 as int, y2 as int);
                lemma_box_bounds(gray@, width as int, x1 as int, x2 + 1, y1 as int, y2 + 1, false);
            }
            let pixel_count = (x2 - x1 + 1) * (y2 - y1 + 1);
            let local_sum = query_integral_sum(integral, width, height, x1, y1, x2, y2);
            proof {
                lemma_mean_bound(local_sum as int, pixel_count as int);
            }
            let local_mean = (local_sum / (pixel_count as u32)) as u8;
            binary.set(x, y, gray[idx] < local_mean);
            x = x + 1;
        }
        y = y + 1;
    }
}

/// Binarize using local-mean adaptive thresholding over an integral image.
pub fn adaptive_binarize(gray: &[u8], width: usize, height: usize, window_size: usize) -> (binary: BitMatrix)
    requires
        adaptive_inputs_ok(gray@, width as int, height as int, window_size as int),
    ensures
        binary.wf(),
        binary.width() == width,
        binary.height() == height,
        forall|x: int, y: int|
            0 <= x < width && 0 <= y < height ==> #[trigger] binary.cell(x, y) == adaptive_dark(
                gray@,
                width as int,
                height as int,
                window_size as int,
                x,
                y,
            ),
{
    let mut binary = BitMatrix::new(width, height);
    let integral = build_integral_image(gray, width, height);
    adaptive_binarize_core(gray, width, height, window_size, &mut binary, integral.as_slice());
    binary
}

/// Adaptive binarization into existing buffers: `output` is resized to the
/// image and `integral` ends holding its summed-area table.
pub fn adaptive_binarize_into(
    gray: &[u8],
    width: usize,
    height: usize,
    window_size: usize,
    output: &mut BitMatrix,
    integral: &mut Vec<u32>,
)
    requires
        adaptive_inputs_ok(gray@, width as int, height as int, window_size as int),
    ensures
        final(output).wf(),
        final(output).width() == width,
        final(output).height() == height,
        forall|x: int, y: int|
            0 <= x < width && 0 <= y < height ==> #[trigger] final(output).cell(x, y) == adaptive_dark(
                gray@,
                width as int,
                height as int,
                window_size as int,
                x,
                y,
            ),
        final(integral)@.len() == width * height,
        is_integral_image(u32_table(final(integral)@), gray@, width as int, height as int, false),
{
    output.reset(width, height);
    build_integral_image_into(gray, width, height, integral);
    adaptive_binarize_core(gray, width, height, window_size, output, integral.as_slice());
}


/// Otsu binarization into an existing matrix: `output` is resized to the
/// image, and a pixel is dark exactly when it is below Otsu's threshold of
/// all of `gray`.
pub fn otsu_binarize_into(gray: &[u8], width: usize, height: usize, output: &mut BitMatrix)
    requires
        width * height + 7 <= usize::MAX,
        gray@.len() >= width * height,
        gray@.len() <= u32::MAX,
        pixel_sum(gray@) <= u32::MAX,
    ensures
        final(output).wf(),
        final(output).width() == width,
        final(output).height() == height,
        exists|t: int|
            is_otsu_threshold(gray@, t) && forall|x: int, y: int|
                0 <= x < width && 0 <= y < height ==> #[trigger] final(output).cell(x, y) == (gray_at(
                    gray@,
                    width as int,
                    x,
                    y,
                ) < t),
{
    output.reset(width, height);
    let threshold = calculate_otsu_threshold(gray);
    fill_below_threshold(gray, width, height, threshold, output);
    proof {
        assert(is_otsu_threshold(gray@, threshold as int));
    }
}

/// Whether `m` marks dark exactly the pixels of the `width`-wide image
/// `gray` below Otsu's threshold, over the `width` by `height` area.
pub open spec fn is_otsu_image(gray: Seq<u8>, width: int, height: int, m: BitMatrix) -> bool {
    exists|t: int|
        is_otsu_threshold(gray, t) && forall|x: int, y: int|
            0 <= x < width && 0 <= y < height ==> #[trigger] m.cell(x, y) == (gray_at(
                gray,
                width,
                x,
                y,
            ) < t)
}

/// Any two Otsu binarizations of the same image agree on every pixel: what
/// `otsu_binarize_into` leaves in its output, whatever it held before, is
/// what `otsu_binarize` returns.
pub proof fn lemma_otsu_binarizations_agree(
    gray: Seq<u8>,
    width: int,
    height: int,
    a: BitMatrix,
    b: BitMatrix,
)
    requires
        is_otsu_image(gray, width, height, a),
        is_otsu_image(gray, width, height, b),
    ensures
        forall|x: int, y: int| 0 <= x < width && 0 <= y < height ==> #[trigger] a.cell(x, y) == b.cell(x, y),
{
    let ta = choose|t: int|
        is_otsu_threshold(gray, t) && forall|x: int, y: int|
            0 <= x < width && 0 <= y < height ==> #[trigger] a.cell(x, y) == (gray_at(
                gray,
                width,
                x,
                y,
            ) < t);
    let tb = choose|t: int|
        is_otsu_threshold(gray, t) && forall|x: int, y: int|
            0 <= x < width && 0 <= y < height ==> #[trigger] b.cell(x, y) == (gray_at(
                gray,
                width,
                x,
                y,
            ) < t);
    lemma_otsu_threshold_unique(gray, ta, tb);
    assert forall|x: int, y: int| 0 <= x < width && 0 <= y < height implies #[trigger] a.cell(x, y)
        == b.cell(x, y) by {
        assert(a.cell(x, y) == (gray_at(gray, width, x, y) < ta));
        assert(b.cell(x, y) == (gray_at(gray, width, x, y) < tb));
    }
}

/// Convert grayscale image to binary using Otsu's thresholding method:
/// a pixel is dark exactly when it is below Otsu's threshold of all of `gray`.
pub fn otsu_binarize(gray: &[u8], width: usize, height: usize) -> (binary: BitMatrix)
    requires
        width * height + 7 <= usize::MAX,
        gray@.len() >= width * height,
        gray@.len() <= u32::MAX,
        pixel_sum(gray@) <= u32::MAX,
    ensures
        binary.wf(),
        binary.width() == width,
        binary.height() == height,
        exists|t: int|
            is_otsu_threshold(gray@, t) && forall|x: int, y: int|
                0 <= x < width && 0 <= y < height ==> #[trigger] binary.cell(x, y) == (gray_at(
                    gray@,
                    width as int,
                    x,
                    y,
                ) < t),
{
    let mut binary = BitMatrix::new(width, height);
    otsu_binarize_into(gray, width, height, &mut binary);
    binary
}


/// Whether `a` lies within `half` of `c`.
pub open spec fn within(c: int, half: int, a: int) -> bool {
    c - half <= a && a <= c + half
}

/// Sum of the pixels of row `b` among columns `[0, a_end)` that lie within
/// `half` of column `x`.
pub open spec fn near_row_total(gray: Seq<u8>, width: int, b: int, x: int, half: int, a_end: int) -> int
    decreases a_end,
{
    if a_end <= 0 {
        0
    } else {
        near_row_total(gray, width, b, x, half, a_end - 1) + if within(x, half, a_end - 1) {
            gray[b * width + a_end - 1] as int
        } else {
            0
        }
    }
}

/// Sum of the pixels of rows `[0, b_end)` of a `width`-wide image that lie
/// within `half` of `(x, y)` in both directions.
pub open spec fn near_total(gray: Seq<u8>, width: int, x: int, y: int, half: int, b_end: int) -> int
    decreases b_end,
{
    if b_end <= 0 {
        0
    } else {
        near_total(gray, width, x, y, half, b_end - 1) + if within(y, half, b_end - 1) {
            near_row_total(gray, width, b_end - 1, x, half, width)
        } else {
            0
        }
    }
}

/// How many of the positions `[0, n)` lie within `half` of `c`.
pub open spec fn near_count(c: int, half: int, n: int) -> int
    decreases n,
{
    if n <= 0 {
        0
    } else {
        near_count(c, half, n - 1) + if within(c, half, n - 1) {
            1int
        } else {
            0int
        }
    }
}

/// `n` clipped to the window `[window_lo(c, half), c + half + 1)`.
spec fn clip_end(c: int, half: int, n: int) -> int {
    let lo = window_lo(c, half);
    if n <= lo {
        lo
    } else if n <= c + half + 1 {
        n
    } else {
        c + half + 1
    }
}

proof fn lemma_near_count(c: int, half: int, n: int)
    requires
        0 <= c,
        0 <= half,
        0 <= n,
    ensures
        near_count(c, half, n) == clip_end(c, half, n) - window_lo(c, half),
    decreases n,
{
    if n > 0 {
        lemma_near_count(c, half, n - 1);
    }
}

proof fn lemma_near_row_total(gray: Seq<u8>, width: int, b: int, x: int, half: int, a_end: int)
    requires
        0 <= x,
        0 <= half,
        0 <= a_end,
    ensures
        near_row_total(gray, width, b, x, half, a_end) == row_span_sum(
            gray,
            width,
            b,
            window_lo(x, half),
            clip_end(x, half, a_end),
            false,
        ),
    decreases a_end,
{
    if a_end > 0 {
        lemma_near_row_total(gray, width, b, x, half, a_end - 1);
    }
}

proof fn lemma_near_total(gray: Seq<u8>, width: int, x: int, y: int, half: int, b_end: int)
    requires
        0 <= x < width,
        0 <= y,
        0 <= half,
        0 <= b_end,
    ensures
        near_total(gray, width, x, y, half, b_end) == box_sum(
            gray,
            width,
            window_lo(x, half),
            window_hi(x, half, width) + 1,
            window_lo(y, half),
            clip_end(y, half, b_end),
            false,
        ),
    decreases b_end,
{
    if b_end > 0 {
        lemma_near_total(gray, width, x, y, half, b_end - 1);
        lemma_near_row_total(gray, width, b_end - 1, x, half, width);
        assert(clip_end(x, half, width) == window_hi(x, half, width) + 1);
    }
}

/// The local mean of adaptive thresholding, stated over the whole image: the
/// sum of the pixels lying within `window / 2` of `(x, y)` in both
/// directions, divided (rounding down) by how many pixels of the image do,
/// that is the window centred on the pixel and clipped to the image.
pub proof fn lemma_local_mean_centred(gray: Seq<u8>, width: int, height: int, window: int, x: int, y: int)
    requires
        0 <= x < width,
        0 <= y < height,
        0 <= window,
    ensures
        local_mean(gray, width, height, window, x, y) == near_total(
            gray,
            width,
            x,
            y,
            window / 2,
            height,
        ) / (near_count(x, window / 2, width) * near_count(y, window / 2, height)),
        adaptive_dark(gray, width, height, window, x, y) == (gray_at(gray, width, x, y) < near_total(
            gray,
            width,
            x,
            y,
            window / 2,
            height,
        ) / (near_count(x, window / 2, width) * near_count(y, window / 2, height))),
{
    let half = window / 2;
    lemma_near_total(gray, width, x, y, half, height);
    lemma_near_count(x, half, width);
    lemma_near_count(y, half, height);
    assert(clip_end(x, half, width) == window_hi(x, half, width) + 1);
    assert(clip_end(y, half, height) == window_hi(y, half, height) + 1);
}

} // verus!
