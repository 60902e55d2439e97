//! Alternative grayscale views for decode retries: evenly spaced crop
//! centres, nearest-neighbour upscaling and downscaling, square crops,
//! luminance and single-channel planes of RGB data, contrast stretching and
//! inversion.

use vstd::prelude::*;

verus! {

/// `a * b`, or `usize::MAX` when that overflows.
pub open spec fn sat_mul(a: int, b: int) -> int {
    if a * b > usize::MAX {
        usize::MAX as int
    } else {
        a * b
    }
}

/// `a + b`, or `usize::MAX` when that overflows.
pub open spec fn sat_add(a: int, b: int) -> int {
    if a + b > usize::MAX {
        usize::MAX as int
    } else {
        a + b
    }
}

/// The smaller of two integers.
pub open spec fn min_int(a: int, b: int) -> int {
    if a <= b {
        a
    } else {
        b
    }
}

/// The larger of two integers.
pub open spec fn max_int(a: int, b: int) -> int {
    if a >= b {
        a
    } else {
        b
    }
}

fn saturating_product(a: usize, b: usize) -> (r: usize)
    ensures
        r == sat_mul(a as int, b as int),
{
    match a.checked_mul(b) {
        Some(p) => p,
        None => usize::MAX,
    }
}

/// The centre of cell `index` when `length` is cut into `steps` equal cells:
/// `(2 index + 1) length / (2 steps)` with saturating arithmetic, at most
/// `length - 1`; zero for an empty length or no steps.
pub open spec fn spaced_center(length: int, index: int, steps: int) -> int {
    if length == 0 || steps == 0 {
        0
    } else {
        let numerator = sat_mul(sat_add(sat_mul(index, 2), 1), length);
        let denominator = sat_mul(steps, 2);
        min_int(numerator / denominator, length - 1)
    }
}

/// Centre of cell `index` of `steps` equal cells along `length`.
pub fn evenly_spaced_center(length: usize, index: usize, steps: usize) -> (c: usize)
    ensures
        c == spaced_center(length as int, index as int, steps as int),
        length > 0 ==> c < length,
{
    if length == 0 || steps == 0 {
        return 0;
    }
    let numerator = saturating_product(saturating_product(index, 2).saturating_add(1), length);
    let denominator = saturating_product(steps, 2);
    let q = numerator / denominator;
    if q < length - 1 {
        q
    } else {
        length - 1
    }
}

/// `out` is `gray` (a `width`-wide image) scaled up by `factor` in each
/// direction, each output pixel copying the source pixel it falls in.
pub open spec fn is_upscaled(gray: Seq<u8>, width: int, factor: int, out: Seq<u8>, out_width: int, out_height: int) -> bool {
    &&& out.len() == out_width * out_height
    &&& forall|x: int, y: int|
        0 <= x < out_width && 0 <= y < out_height ==> #[trigger] out[y * out_width + x] == gray[(y
            / factor) * width + x / factor]
}

proof fn lemma_index_in_grid(w: int, h: int, x: int, y: int)
    requires
        0 <= x < w,
        0 <= y < h,
    ensures
        0 <= y * w + x < w * h,
        y * w + x + 1 <= w * h,
{
    assert(0 <= y * w + x < w * h && y * w + x + 1 <= w * h) by (nonlinear_arith)
        requires
            0 <= x < w,
            0 <= y < h,
    ;
}

proof fn lemma_flat_index(w: int, x: int, y: int, i: int)
    requires
        0 <= x < w,
        0 <= y,
        i == y * w + x,
    ensures
        i / w == y,
        i % w == x,
{
    vstd::arithmetic::div_mod::lemma_fundamental_div_mod_converse(i, w, y, x);
}

proof fn lemma_scaled_source(x: int, y: int, width: int, height: int, factor: int)
    requires
        0 <= x < width * factor,
        0 <= y < height * factor,
        factor >= 1,
        width >= 1,
    ensures
        0 <= x / factor < width,
        0 <= y / factor < height,
        0 <= (y / factor) * width + x / factor < width * height,
{
    vstd::arithmetic::mul::lemma_mul_is_commutative(width, factor);
    vstd::arithmetic::mul::lemma_mul_is_commutative(height, factor);
    vstd::arithmetic::div_mod::lemma_multiply_divide_lt(x, factor, width);
    vstd::arithmetic::div_mod::lemma_multiply_divide_lt(y, factor, height);
    vstd::arithmetic::div_mod::lemma_div_pos_is_pos(x, factor);
    vstd::arithmetic::div_mod::lemma_div_pos_is_pos(y, factor);
    lemma_index_in_grid(width, height, x / factor, y / factor);
}

/// Upscale `grayscale` (`width` x `height`, row-major) by an integer
/// `factor > 1` by pixel repetition. `None` for an empty image, a factor of
/// at most one, or a buffer with fewer than `width * height` bytes.
pub fn upscale_grayscale(grayscale: &[u8], width: usize, height: usize, factor: usize) -> (r:
    Option<(Vec<u8>, usize, usize)>)
    requires
        width * factor * (height * factor) <= usize::MAX,
    ensures
        r.is_none() <==> (width == 0 || height == 0 || factor <= 1 || grayscale@.len() < width
            * height),
        r matches Some((out, ow, oh)) ==> {
            &&& ow == width * factor
            &&& oh == height * factor
            &&& is_upscaled(grayscale@, width as int, factor as int, out@, ow as int, oh as int)
        },
{
    if width == 0 || height == 0 || factor <= 1 {
        return None;
    }
    assert(width * factor <= width * factor * (height * factor)) by (nonlinear_arith)
        requires
            height >= 1,
            factor >= 1,
            width >= 1,
    ;
    assert(height * factor <= width * factor * (height * factor)) by (nonlinear_arith)
        requires
            height >= 1,
            factor >= 1,
            width >= 1,
    ;
    assert(width * height <= width * factor * (height * factor)) by (nonlinear_arith)
        requires
            height >= 1,
            factor >= 1,
            width >= 1,
    ;
    if grayscale.len() < width * height {
        return None;
    }
    let out_width = width * factor;
    let out_height = height * factor;
    let mut out: Vec<u8> = Vec::new();
    let mut y: usize = 0;
    while y < out_height
        invariant
            width >= 1,
            height >= 1,
            factor >= 2,
            out_width == width * factor,
            out_height == height * factor,
            out_width * out_height <= usize::MAX,
            grayscale@.len() >= width * height,
            width * height <= usize::MAX,
            0 <= y <= out_height,
            out@.len() == y * out_width,
            forall|i: int|
                0 <= i < out@.len() ==> #[trigger] out@[i] == grayscale@[((i / (
                out_width as int)) / (factor as int)) * width + (i % (out_width as int)) / (
                factor as int)],
        decreases out_height - y,
    {
        let src_y = y / factor;
        let mut x: usize = 0;
        while x < out_width
            invariant
                width >= 1,
                height >= 1,
                factor >= 2,
                out_width == width * factor,
                out_height == height * factor,
                grayscale@.len() >= width * height,
                width * height <= usize::MAX,
                0 <= y < out_height,
                src_y == y / factor,
                0 <= x <= out_width,
                out@.len() == y * out_width + x,
                forall|i: int|
                    0 <= i < out@.len() ==> #[trigger] out@[i] == grayscale@[((i / (
                    out_width as int)) / (factor as int)) * width + (i % (out_width as int)) / (
                    factor as int)],
            decreases out_width - x,
        {
            let src_x = x / factor;
            proof {
                lemma_scaled_source(x as int, y as int, width as int, height as int, factor as int);
                lemma_flat_index(out_width as int, x as int, y as int, y * out_width + x);
            }
            let src = src_y * width + src_x;
            out.push(grayscale[src]);
            x += 1;
        }
        proof {
            assert(out@.len() == (y + 1) * out_width) by (nonlinear_arith)
                requires
                    out@.len() == y * out_width + out_width,
            ;
        }
        y += 1;
    }
    proof {
        assert(out@.len() == out_width * out_height) by (nonlinear_arith)
            requires
                out@.len() == out_height * out_width,
        ;
        assert forall|x: int, y: int|
            0 <= x < out_width && 0 <= y < out_height implies #[trigger] out@[y * out_width + x]
            == grayscale@[(y / (factor as int)) * width + x / (factor as int)] by {
            lemma_index_in_grid(out_width as int, out_height as int, x, y);
            lemma_flat_index(out_width as int, x, y, y * out_width + x);
        }
    }
    Some((out, out_width, out_height))
}

/// A copy of `s`.
pub fn copy_of(s: &[u8]) -> (v: Vec<u8>)
    ensures
        v@ == s@,
{
    let mut v: Vec<u8> = Vec::new();
    let mut i: usize = 0;
    while i < s.len()
        invariant
            0 <= i <= s@.len(),
            v@ == s@.subrange(0, i as int),
        decreases s@.len() - i,
    {
        v.push(s[i]);
        i += 1;
        assert(v@ =~= s@.subrange(0, i as int));
    }
    assert(v@ =~= s@);
    v
}

/// The left (or top) edge of a `crop`-wide window centred on `center` and
/// kept inside `0..dim`.
pub open spec fn crop_origin(center: int, crop: int, dim: int) -> int {
    min_int(max_int(center - crop / 2, 0), dim - crop)
}

/// One past the source index of the last pixel of a crop.
pub open spec fn crop_end(width: int, x0: int, y0: int, crop_width: int, crop_height: int) -> int {
    (y0 + crop_height - 1) * width + x0 + crop_width
}

/// Cut a square window of side `window_size` (clipped to the image) centred
/// on `(center_x, center_y)` and shifted to lie inside the image. Returns the
/// crop, its width and height and its top-left corner; `None` for an empty
/// image or window, or a buffer too short for the crop.
pub fn crop_grayscale_square(
    grayscale: &[u8],
    width: usize,
    height: usize,
    center_x: usize,
    center_y: usize,
    window_size: usize,
) -> (r: Option<(Vec<u8>, usize, usize, usize, usize)>)
    requires
        width * height <= usize::MAX,
    ensures
        ({
            let cw = min_int(window_size as int, width as int);
            let ch = min_int(window_size as int, height as int);
            let x0 = crop_origin(center_x as int, cw, width as int);
            let y0 = crop_origin(center_y as int, ch, height as int);
            &&& r.is_none() <==> (width == 0 || height == 0 || window_size == 0 || crop_end(
                width as int,
                x0,
                y0,
                cw,
                ch,
            ) > grayscale@.len())
            &&& r matches Some((crop, w, h, ox, oy)) ==> {
                &&& w == cw
                &&& h == ch
                &&& ox == x0
                &&& oy == y0
                &&& crop@.len() == cw * ch
                &&& forall|c: int, row: int|
                    0 <= c < cw && 0 <= row < ch ==> #[trigger] crop@[row * cw + c] == grayscale@[(
                    y0 + row) * width + x0 + c]
            }
        }),
{
    if width == 0 || height == 0 || window_size == 0 {
        return None;
    }
    let crop_width = if window_size < width {
        window_size
    } else {
        width
    };
    let crop_height = if window_size < height {
        window_size
    } else {
        height
    };
    let max_x0 = width - crop_width;
    let max_y0 = height - crop_height;
    let sx = center_x.saturating_sub(crop_width / 2);
    let x0 = if sx < max_x0 {
        sx
    } else {
        max_x0
    };
    let sy = center_y.saturating_sub(crop_height / 2);
    let y0 = if sy < max_y0 {
        sy
    } else {
        max_y0
    };
    proof {
        lemma_index_in_grid(width as int, height as int, (x0 + crop_width - 1) as int, (y0
            + crop_height - 1) as int);
    }
    let last_end = (y0 + crop_height - 1) * width + x0 + crop_width;
    if last_end > grayscale.len() {
        return None;
    }
    let mut crop: Vec<u8> = Vec::new();
    let mut row: usize = 0;
    while row < crop_height
        invariant
            width >= 1,
            1 <= crop_width <= width,
            1 <= crop_height <= height,
            x0 + crop_width <= width,
            y0 + crop_height <= height,
            width * height <= usize::MAX,
            last_end == (y0 + crop_height - 1) * width + x0 + crop_width,
            last_end <= grayscale@.len(),
            0 <= row <= crop_height,
            crop@.len() == row * crop_width,
            forall|i: int|
                0 <= i < crop@.len() ==> #[trigger] crop@[i] == grayscale@[(y0 + i / (
                crop_width as int)) * width + x0 + i % (crop_width as int)],
        decreases crop_height - row,
    {
        proof {
            lemma_index_in_grid(width as int, height as int, x0 as int, (y0 + row) as int);
            assert((y0 + row) * width + x0 + crop_width <= last_end) by (nonlinear_arith)
                requires
                    row < crop_height,
                    last_end == (y0 + crop_height - 1) * width + x0 + crop_width,
                    width >= 0,
            ;
        }
        let row_start = (y0 + row) * width + x0;
        let mut c: usize = 0;
        while c < crop_width
            invariant
                width >= 1,
                1 <= crop_width <= width,
                0 <= row < crop_height,
                row_start == (y0 + row) * width + x0,
                row_start + crop_width <= grayscale@.len(),
                row_start + crop_width <= last_end,
                0 <= c <= crop_width,
                crop@.len() == row * crop_width + c,
                forall|i: int|
                    0 <= i < crop@.len() ==> #[trigger] crop@[i] == grayscale@[(y0 + i / (
                    crop_width as int)) * width + x0 + i % (crop_width as int)],
            decreases crop_width - c,
        {
            proof {
                lemma_flat_index(crop_width as int, c as int, row as int, row * crop_width + c);
            }
            crop.push(grayscale[row_start + c]);
            c += 1;
        }
        proof {
            assert(crop@.len() == (row + 1) * crop_width) by (nonlinear_arith)
                requires
                    crop@.len() == row * crop_width + crop_width,
            ;
        }
        row += 1;
    }
    proof {
        assert(crop@.len() == crop_width * crop_height) by (nonlinear_arith)
            requires
                crop@.len() == crop_height * crop_width,
        ;
        assert forall|c: int, row: int|
            0 <= c < crop_width && 0 <= row < crop_height implies #[trigger] crop@[row * crop_width
            + c] == grayscale@[(y0 + row) * width + x0 + c] by {
            lemma_index_in_grid(crop_width as int, crop_height as int, c, row);
            lemma_flat_index(crop_width as int, c, row, row * crop_width + c);
        }
    }
    Some((crop, crop_width, crop_height, x0, y0))
}

/// Width and height of the nearest-neighbour downscale of a `width` x
/// `height` image whose larger side becomes `max_dim`: each side is scaled by
/// `max_dim / max(width, height)`, rounded down, and is at least one.
pub open spec fn resized_size(width: int, height: int, max_dim: int) -> (int, int) {
    let source_max = max_int(width, height);
    (max_int((width * max_dim) / source_max, 1), max_int((height * max_dim) / source_max, 1))
}

/// A downscale never exceeds the bound: both sides of the resized image are
/// between one and `max_dim`, and its larger side is exactly `max_dim`.
pub proof fn lemma_resized_size_bounded(width: int, height: int, max_dim: int)
    requires
        width > 0,
        height > 0,
        max_dim > 0,
    ensures
        ({
            let (ow, oh) = resized_size(width, height, max_dim);
            &&& 1 <= ow <= max_dim
            &&& 1 <= oh <= max_dim
            &&& max_int(ow, oh) == max_dim
        }),
{
    let m = max_int(width, height);
    assert((width * max_dim) / m <= max_dim) by (nonlinear_arith)
        requires
            0 < width <= m,
            max_dim > 0,
    ;
    assert((height * max_dim) / m <= max_dim) by (nonlinear_arith)
        requires
            0 < height <= m,
            max_dim > 0,
    ;
    assert((m * max_dim) / m == max_dim) by (nonlinear_arith)
        requires
            m > 0,
    ;
}

/// The source index sampled for output pixel `(x, y)` of a resize from
/// `width` x `height` to `out_width` x `out_height`.
pub open spec fn resize_source(width: int, height: int, out_width: int, out_height: int, x: int, y: int) -> int {
    ((y * height) / out_height) * width + (x * width) / out_width
}

proof fn lemma_resize_source_bounds(width: int, height: int, ow: int, oh: int, x: int, y: int)
    requires
        1 <= ow <= width,
        1 <= oh <= height,
        0 <= x < ow,
        0 <= y < oh,
    ensures
        0 <= (x * width) / ow <= ((ow - 1) * width) / ow < width,
        0 <= (y * height) / oh <= ((oh - 1) * height) / oh < height,
        0 <= resize_source(width, height, ow, oh, x, y) <= resize_source(width, height, ow, oh, ow - 1, oh - 1),
        resize_source(width, height, ow, oh, ow - 1, oh - 1) < width * height,
{
    assert(0 <= x * width <= (ow - 1) * width) by (nonlinear_arith)
        requires
            0 <= x < ow,
            width >= 1,
    ;
    assert(0 <= y * height <= (oh - 1) * height) by (nonlinear_arith)
        requires
            0 <= y < oh,
            height >= 1,
    ;
    vstd::arithmetic::div_mod::lemma_div_is_ordered(x * width, (ow - 1) * width, ow);
    vstd::arithmetic::div_mod::lemma_div_is_ordered(y * height, (oh - 1) * height, oh);
    vstd::arithmetic::div_mod::lemma_div_pos_is_pos(x * width, ow);
    vstd::arithmetic::div_mod::lemma_div_pos_is_pos(y * height, oh);
    assert((ow - 1) * width < ow * width) by (nonlinear_arith)
        requires
            ow >= 1,
            width >= 1,
    ;
    assert((oh - 1) * height < oh * height) by (nonlinear_arith)
        requires
            oh >= 1,
            height >= 1,
    ;
    vstd::arithmetic::div_mod::lemma_multiply_divide_lt((ow - 1) * width, ow, width);
    vstd::arithmetic::div_mod::lemma_multiply_divide_lt((oh - 1) * height, oh, height);
    let sx = (x * width) / ow;
    let sy = (y * height) / oh;
    let lx = ((ow - 1) * width) / ow;
    let ly = ((oh - 1) * height) / oh;
    assert(sy * width + sx <= ly * width + lx) by (nonlinear_arith)
        requires
            0 <= sy <= ly,
            0 <= sx <= lx,
            width >= 0,
    ;
    lemma_index_in_grid(width, height, lx, ly);
}

/// Downscale so that neither side exceeds `max_dim`, by nearest-neighbour
/// sampling; an image already within bounds is copied unchanged. `None` for
/// an empty image, a zero bound, or a buffer too short for the sampled
/// pixels.
pub fn resize_grayscale_to_max_dim(grayscale: &[u8], width: usize, height: usize, max_dim: usize) -> (r:
    Option<(Vec<u8>, usize, usize)>)
    requires
        width * max_dim <= usize::MAX,
        height * max_dim <= usize::MAX,
        width * height <= usize::MAX,
    ensures
        width == 0 || height == 0 || max_dim == 0 ==> r.is_none(),
        width > 0 && height > 0 && max_dim > 0 && width <= max_dim && height <= max_dim ==> (
        r matches Some((out, w, h)) && out@ == grayscale@ && w == width && h == height),
        width > 0 && height > 0 && max_dim > 0 && !(width <= max_dim && height <= max_dim) ==> ({
            let (ow, oh) = resized_size(width as int, height as int, max_dim as int);
            &&& r.is_none() <==> resize_source(
                width as int,
                height as int,
                ow,
                oh,
                ow - 1,
                oh - 1,
            ) >= grayscale@.len()
            &&& r matches Some((out, w, h)) ==> {
                &&& w == ow
                &&& h == oh
                &&& out@.len() == ow * oh
                &&& forall|x: int, y: int|
                    0 <= x < ow && 0 <= y < oh ==> #[trigger] out@[y * ow + x] == grayscale@[resize_source(
                        width as int,
                        height as int,
                        ow,
                        oh,
                        x,
                        y,
                    )]
            }
        }),
{
    if width == 0 || height == 0 || max_dim == 0 {
        return None;
    }
    if width <= max_dim && height <= max_dim {
        return Some((copy_of(grayscale), width, height));
    }
    let source_max = if width >= height {
        width
    } else {
        height
    };
    let qw = (width * max_dim) / source_max;
    let qh = (height * max_dim) / source_max;
    let out_width = if qw >= 1 {
        qw
    } else {
        1
    };
    let out_height = if qh >= 1 {
        qh
    } else {
        1
    };
    proof {
        assert(width * max_dim < width * source_max) by (nonlinear_arith)
            requires
                width >= 1,
                max_dim < source_max,
        ;
        assert(height * max_dim < height * source_max) by (nonlinear_arith)
            requires
                height >= 1,
                max_dim < source_max,
        ;
        vstd::arithmetic::mul::lemma_mul_is_commutative(width as int, source_max as int);
        vstd::arithmetic::mul::lemma_mul_is_commutative(height as int, source_max as int);
        vstd::arithmetic::div_mod::lemma_multiply_divide_lt(
            (width * max_dim) as int,
            source_max as int,
            width as int,
        );
        vstd::arithmetic::div_mod::lemma_multiply_divide_lt(
            (height * max_dim) as int,
            source_max as int,
            height as int,
        );
        lemma_resize_source_bounds(
            width as int,
            height as int,
            out_width as int,
            out_height as int,
            0,
            0,
        );
        assert(width * max_dim <= source_max * max_dim) by (nonlinear_arith)
            requires
                width <= source_max,
                max_dim >= 0,
        ;
        assert(height * max_dim <= source_max * max_dim) by (nonlinear_arith)
            requires
                height <= source_max,
                max_dim >= 0,
        ;
        vstd::arithmetic::div_mod::lemma_div_is_ordered(
            (width * max_dim) as int,
            source_max * max_dim,
            source_max as int,
        );
        vstd::arithmetic::div_mod::lemma_div_is_ordered(
            (height * max_dim) as int,
            source_max * max_dim,
            source_max as int,
        );
        vstd::arithmetic::div_mod::lemma_div_multiples_vanish(max_dim as int, source_max as int);
    }
    assert((out_height - 1) * height <= height * max_dim) by (nonlinear_arith)
        requires
            1 <= out_height <= max_dim,
            height >= 1,
    ;
    assert((out_width - 1) * width <= width * max_dim) by (nonlinear_arith)
        requires
            1 <= out_width <= max_dim,
            width >= 1,
    ;
    let last_y = ((out_height - 1) * height) / out_height;
    let last_x = ((out_width - 1) * width) / out_width;
    let last = last_y * width + last_x;
    if last >= grayscale.len() {
        return None;
    }
    let mut out: Vec<u8> = Vec::new();
    let mut y: usize = 0;
    while y < out_height
        invariant
            1 <= out_width <= width,
            1 <= out_height <= height,
            out_width <= max_dim,
            out_height <= max_dim,
            width * max_dim <= usize::MAX,
            height * max_dim <= usize::MAX,
            width * height <= usize::MAX,
            last == resize_source(
                width as int,
                height as int,
                out_width as int,
                out_height as int,
                out_width - 1,
                out_height - 1,
            ),
            last < grayscale@.len(),
            0 <= y <= out_height,
            out@.len() == y * out_width,
            forall|i: int|
                0 <= i < out@.len() ==> #[trigger] out@[i] == grayscale@[resize_source(
                    width as int,
                    height as int,
                    out_width as int,
                    out_height as int,
                    i % (out_width as int),
                    i / (out_width as int),
                )],
        decreases out_height - y,
    {
        assert(y * height <= height * max_dim) by (nonlinear_arith)
            requires
                y < out_height <= max_dim,
        ;
        let src_y = (y * height) / out_height;
        let mut x: usize = 0;
        while x < out_width
            invariant
                1 <= out_width <= width,
                1 <= out_height <= height,
                out_width <= max_dim,
                width * max_dim <= usize::MAX,
                width * height <= usize::MAX,
                last == resize_source(
                    width as int,
                    height as int,
                    out_width as int,
                    out_height as int,
                    out_width - 1,
                    out_height - 1,
                ),
                last < grayscale@.len(),
                0 <= y < out_height,
                src_y == (y * height) / (out_height as int),
                0 <= x <= out_width,
                out@.len() == y * out_width + x,
                forall|i: int|
                    0 <= i < out@.len() ==> #[trigger] out@[i] == grayscale@[resize_source(
                        width as int,
                        height as int,
                        out_width as int,
                        out_height as int,
                        i % (out_width as int),
                        i / (out_width as int),
                    )],
            decreases out_width - x,
        {
            assert(x * width <= width * max_dim) by (nonlinear_arith)
                requires
                    x < out_width <= max_dim,
            ;
            let src_x = (x * width) / out_width;
            proof {
                lemma_resize_source_bounds(
                    width as int,
                    height as int,
                    out_width as int,
                    out_height as int,
                    x as int,
                    y as int,
                );
                lemma_flat_index(out_width as int, x as int, y as int, y * out_width + x);
            }
            let src = src_y * width + src_x;
            out.push(grayscale[src]);
            x += 1;
        }
        proof {
            assert(out@.len() == (y + 1) * out_width) by (nonlinear_arith)
                requires
                    out@.len() == y * out_width + out_width,
            ;
        }
        y += 1;
    }
    proof {
        assert(out@.len() == out_width * out_height) by (nonlinear_arith)
            requires
                out@.len() == out_height * out_width,
        ;
        assert forall|x: int, y: int|
            0 <= x < out_width && 0 <= y < out_height implies #[trigger] out@[y * out_width + x]
            == grayscale@[resize_source(
                width as int,
                height as int,
                out_width as int,
                out_height as int,
                x,
                y,
            )] by {
            lemma_index_in_grid(out_width as int, out_height as int, x, y);
            lemma_flat_index(out_width as int, x, y, y * out_width + x);
        }
    }
    Some((out, out_width, out_height))
}

/// Luminance of an RGB triple with weights 0.299, 0.587 and 0.114, rounded
/// to nearest.
pub open spec fn luma_rounded(r: u8, g: u8, b: u8) -> int {
    (299 * r + 587 * g + 114 * b + 500) / 1000
}

/// Luminance of each complete RGB triple of `image`; trailing bytes that do
/// not make a triple are ignored.
pub fn rgb_to_grayscale(image: &[u8]) -> (gray: Vec<u8>)
    ensures
        gray@.len() == image@.len() / 3,
        forall|i: int|
            0 <= i < gray@.len() ==> #[trigger] gray@[i] as int == luma_rounded(
                image@[3 * i],
                image@[3 * i + 1],
                image@[3 * i + 2],
            ),
{
    let len = image.len();
    let n = len / 3;
    let mut gray: Vec<u8> = Vec::new();
    let mut i: usize = 0;
    while i < n
        invariant
            len == image@.len(),
            n == image@.len() / 3,
            0 <= i <= n,
            gray@.len() == i,
            forall|k: int|
                0 <= k < i ==> #[trigger] gray@[k] as int == luma_rounded(
                    image@[3 * k],
                    image@[3 * k + 1],
                    image@[3 * k + 2],
                ),
        decreases n - i,
    {
        let r = image[3 * i] as u32;
        let g = image[3 * i + 1] as u32;
        let b = image[3 * i + 2] as u32;
        let y = (299 * r + 587 * g + 114 * b + 500) / 1000;
        gray.push(y as u8);
        i += 1;
    }
    gray
}

/// Channel `channel` of each complete RGB triple of `image`, or zeros for a
/// channel index past the third.
pub fn rgb_channel_plane(image: &[u8], channel: usize) -> (plane: Vec<u8>)
    ensures
        plane@.len() == image@.len() / 3,
        forall|i: int|
            0 <= i < plane@.len() ==> #[trigger] plane@[i] == if channel < 3 {
                image@[3 * i + channel]
            } else {
                0u8
            },
{
    let len = image.len();
    let n = len / 3;
    let mut plane: Vec<u8> = Vec::new();
    let mut i: usize = 0;
    while i < n
        invariant
            len == image@.len(),
            n == image@.len() / 3,
            0 <= i <= n,
            plane@.len() == i,
            forall|k: int|
                0 <= k < i ==> #[trigger] plane@[k] == if channel < 3 {
                    image@[3 * k + channel]
                } else {
                    0u8
                },
        decreases n - i,
    {
        let v = if channel < 3 {
            image[3 * i + channel]
        } else {
            0u8
        };
        plane.push(v);
        i += 1;
    }
    plane
}

/// The smallest byte of `s`, or zero for an empty sequence.
pub open spec fn seq_min(s: Seq<u8>) -> u8
    decreases s.len(),
{
    if s.len() == 0 {
        0
    } else if s.len() == 1 {
        s[0]
    } else {
        let m = seq_min(s.drop_last());
        if s.last() < m {
            s.last()
        } else {
            m
        }
    }
}

/// The largest byte of `s`, or zero for an empty sequence.
pub open spec fn seq_max(s: Seq<u8>) -> u8
    decreases s.len(),
{
    if s.len() == 0 {
        0
    } else {
        let m = seq_max(s.drop_last());
        if s.last() > m {
            s.last()
        } else {
            m
        }
    }
}

pub(crate) proof fn lemma_seq_max_bounds(s: Seq<u8>)
    ensures
        forall|i: int| 0 <= i < s.len() ==> #[trigger] s[i] <= seq_max(s),
    decreases s.len(),
{
    if s.len() > 0 {
        lemma_seq_max_bounds(s.drop_last());
        assert forall|i: int| 0 <= i < s.len() implies #[trigger] s[i] <= seq_max(s) by {
            if i < s.len() - 1 {
                assert(s.drop_last()[i] == s[i]);
            }
        }
    }
}

/// The smallest byte of a non-empty sequence is at most its largest.
pub proof fn lemma_seq_min_max_order(s: Seq<u8>)
    ensures
        seq_min(s) <= seq_max(s),
{
    if s.len() > 0 {
        lemma_seq_min_bounds(s);
        lemma_seq_max_bounds(s);
        assert(seq_min(s) <= s[0] <= seq_max(s));
    }
}

pub(crate) proof fn lemma_seq_min_bounds(s: Seq<u8>)
    requires
        s.len() > 0,
    ensures
        forall|i: int| 0 <= i < s.len() ==> seq_min(s) <= #[trigger] s[i],
    decreases s.len(),
{
    if s.len() > 1 {
        lemma_seq_min_bounds(s.drop_last());
        assert forall|i: int| 0 <= i < s.len() implies seq_min(s) <= #[trigger] s[i] by {
            if i < s.len() - 1 {
                assert(s.drop_last()[i] == s[i]);
            }
        }
    }
}

/// The smallest and the largest byte of `s` (zero for an empty `s`).
pub fn min_max(s: &[u8]) -> (r: (u8, u8))
    ensures
        r.0 == seq_min(s@),
        r.1 == seq_max(s@),
{
    if s.len() == 0 {
        return (0, 0);
    }
    let mut lo = s[0];
    let mut hi = s[0];
    assert(s@.subrange(0, 1).drop_last() =~= Seq::<u8>::empty());
    assert(seq_max(Seq::<u8>::empty()) == 0);
    assert(seq_max(s@.subrange(0, 1)) == s@[0]);
    let mut i: usize = 1;
    while i < s.len()
        invariant
            1 <= i <= s@.len(),
            lo == seq_min(s@.subrange(0, i as int)),
            hi == seq_max(s@.subrange(0, i as int)),
        decreases s@.len() - i,
    {
        let v = s[i];
        assert(s@.subrange(0, i + 1).drop_last() =~= s@.subrange(0, i as int));
        if v < lo {
            lo = v;
        }
        if v > hi {
            hi = v;
        }
        i += 1;
    }
    assert(s@.subrange(0, s@.len() as int) =~= s@);
    (lo, hi)
}

/// `gray` stretched linearly so that its smallest value maps to zero and its
/// largest to 255 (rounding down); unchanged when the spread is under six.
pub open spec fn contrast_stretched(gray: Seq<u8>) -> Seq<u8> {
    let lo = seq_min(gray);
    let hi = seq_max(gray);
    if hi <= lo || hi - lo < 6 {
        gray
    } else {
        Seq::new(gray.len(), |i: int| (((gray[i] - lo) * 255) / ((hi - lo) as int)) as u8)
    }
}

/// What `contrast_stretch_grayscale` states of its result is
/// `contrast_stretched`.
pub proof fn lemma_contrast_stretched(gray: Seq<u8>, out: Seq<u8>)
    requires
        ({
            let lo = seq_min(gray);
            let hi = seq_max(gray);
            &&& hi <= lo || hi - lo < 6 ==> out == gray
            &&& !(hi <= lo || hi - lo < 6) ==> {
                &&& out.len() == gray.len()
                &&& forall|i: int|
                    0 <= i < out.len() ==> #[trigger] out[i] as int == ((gray[i] - lo) * 255) / ((hi
                        - lo) as int)
            }
        }),
    ensures
        out == contrast_stretched(gray),
{
    assert(out =~= contrast_stretched(gray));
}

/// Stretch the values of `gray` linearly so that its smallest value maps to
/// zero and its largest to 255 (rounding down); unchanged when the spread
/// is under six.
pub fn contrast_stretch_grayscale(grayscale: &[u8]) -> (out: Vec<u8>)
    ensures
        ({
            let lo = seq_min(grayscale@);
            let hi = seq_max(grayscale@);
            &&& hi <= lo || hi - lo < 6 ==> out@ == grayscale@
            &&& !(hi <= lo || hi - lo < 6) ==> {
                &&& out@.len() == grayscale@.len()
                &&& forall|i: int|
                    0 <= i < out@.len() ==> #[trigger] out@[i] as int == ((grayscale@[i] - lo)
                        * 255) / ((hi - lo) as int)
            }
        }),
{
    let (lo, hi) = min_max(grayscale);
    if hi <= lo || hi - lo < 6 {
        return copy_of(grayscale);
    }
    proof {
        lemma_seq_min_bounds(grayscale@);
        lemma_seq_max_bounds(grayscale@);
    }
    let range = (hi - lo) as u32;
    let mut out: Vec<u8> = Vec::new();
    let mut i: usize = 0;
    while i < grayscale.len()
        invariant
            lo == seq_min(grayscale@),
            forall|k: int| 0 <= k < grayscale@.len() ==> lo <= #[trigger] grayscale@[k] <= hi,
            range == hi - lo,
            6 <= range <= 255,
            0 <= i <= grayscale@.len(),
            out@.len() == i,
            forall|k: int|
                0 <= k < i ==> #[trigger] out@[k] as int == ((grayscale@[k] - lo) * 255) / (
                range as int),
        decreases grayscale@.len() - i,
    {
        let v = grayscale[i];
        let d = (v - lo) as u32;
        let scaled = (d * 255) / range;
        assert(scaled <= 255) by (nonlinear_arith)
            requires
                scaled == (d * 255) / (range as int),
                d <= range,
                range >= 6,
        ;
        out.push(scaled as u8);
        i += 1;
    }
    out
}

/// The photographic negative of grayscale values: `v` becomes `255 - v`.
pub open spec fn negative(grayscale: Seq<u8>) -> Seq<u8> {
    Seq::new(grayscale.len(), |i: int| (255 - grayscale[i]) as u8)
}

/// Taking the negative twice gives back the image.
pub proof fn lemma_negative_involution(grayscale: Seq<u8>)
    ensures
        negative(negative(grayscale)) == grayscale,
{
    assert(negative(negative(grayscale)) =~= grayscale);
}

/// The photographic negative: each value `v` becomes `255 - v`.
pub fn invert_grayscale(grayscale: &[u8]) -> (out: Vec<u8>)
    ensures
        out@ == negative(grayscale@),
{
    let mut out: Vec<u8> = Vec::new();
    let mut i: usize = 0;
    while i < grayscale.len()
        invariant
            0 <= i <= grayscale@.len(),
            out@.len() == i,
            forall|k: int| 0 <= k < i ==> #[trigger] out@[k] == 255 - grayscale@[k],
        decreases grayscale@.len() - i,
    {
        out.push(255 - grayscale[i]);
        i += 1;
    }
    assert(out@ =~= negative(grayscale@));
    out
}

/// Where a finder proposal was found, by its identifier.
#[derive(Clone, Copy, Debug, PartialEq, Eq, Structural)]
pub struct ProposalCenter {
    pub id: usize,
    pub x: usize,
    pub y: usize,
}

/// The centre of the first proposal with identifier `id`, if any.
pub open spec fn center_with_id(proposals: Seq<ProposalCenter>, id: usize) -> Option<(usize, usize)>
    decreases proposals.len(),
{
    if proposals.len() == 0 {
        None
    } else if proposals[0].id == id {
        Some((proposals[0].x, proposals[0].y))
    } else {
        center_with_id(proposals.drop_first(), id)
    }
}

/// The centre of the first proposal with identifier `id`, if any.
pub fn proposal_center_by_id(proposals: &[ProposalCenter], id: usize) -> (center: Option<(usize, usize)>)
    ensures
        center == center_with_id(proposals@, id),
{
    let mut i: usize = 0;
    assert(proposals@.skip(0) =~= proposals@);
    while i < proposals.len()
        invariant
            i <= proposals@.len(),
            center_with_id(proposals@, id) == center_with_id(proposals@.skip(i as int), id),
        decreases proposals@.len() - i,
    {
        proof {
            assert(proposals@.skip(i as int).drop_first() =~= proposals@.skip(i + 1));
        }
        if proposals[i].id == id {
            return Some((proposals[i].x, proposals[i].y));
        }
        i += 1;
    }
    None
}

/// The crop centres tried for a hypothesis: the centre of the proposal it
/// is anchored on, if one has its identifier, then the centre of the
/// proposal at its rank, unless that is the same point.
pub open spec fn hypothesis_centers(proposals: Seq<ProposalCenter>, id: usize, rank: int) -> Seq<(usize, usize)> {
    let anchored = match center_with_id(proposals, id) {
        Some(c) => seq![c],
        None => Seq::empty(),
    };
    if 0 <= rank < proposals.len() {
        let c = (proposals[rank].x, proposals[rank].y);
        if anchored.contains(c) {
            anchored
        } else {
            anchored.push(c)
        }
    } else {
        anchored
    }
}

/// The crop centres tried for the hypothesis anchored on proposal
/// `hypothesis_id` at rank `rank_idx`.
pub fn hypothesis_center_candidates(proposals: &[ProposalCenter], hypothesis_id: usize, rank_idx: usize) -> (centers: Vec<(usize, usize)>)
    ensures
        centers@ == hypothesis_centers(proposals@, hypothesis_id, rank_idx as int),
{
    let mut centers: Vec<(usize, usize)> = Vec::new();
    match proposal_center_by_id(proposals, hypothesis_id) {
        Some(center) => centers.push(center),
        None => {},
    }
    if rank_idx < proposals.len() {
        let center = (proposals[rank_idx].x, proposals[rank_idx].y);
        let duplicate = centers.len() == 1 && centers[0].0 == center.0 && centers[0].1 == center.1;
        proof {
            let anchored = centers@;
            if anchored.len() == 1 {
                assert(duplicate <==> anchored.contains(center)) by {
                    if anchored.contains(center) {
                        let k = choose|k: int| 0 <= k < anchored.len() && anchored[k] == center;
                        assert(k == 0);
                    }
                }
            } else {
                assert(!anchored.contains(center));
            }
        }
        if !duplicate {
            centers.push(center);
        }
    }
    centers
}

} // verus!
