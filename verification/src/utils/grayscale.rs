//! RGB and RGBA to grayscale conversion with the integer weights
//! `Y = (76 R + 150 G + 29 B) >> 8`, the alpha channel ignored.

use vstd::prelude::*;
use crate::input::luma;

verus! {

/// `gray` holds the luminance of the first `count` pixels of `src`, which has
/// `channels` interleaved bytes per pixel, red, green and blue first.
pub open spec fn holds_luma(src: Seq<u8>, channels: int, gray: Seq<u8>, count: int) -> bool {
    forall|i: int|
        0 <= i < count ==> #[trigger] gray[i] as int == luma(
            src[channels * i],
            src[channels * i + 1],
            src[channels * i + 2],
        )
}

fn pixel_luma(src: &[u8], base: usize) -> (l: u8)
    requires
        base + 2 < src@.len(),
    ensures
        l as int == luma(src@[base as int], src@[base + 1], src@[base + 2]),
{
    let r = src[base] as u32;
    let g = src[base + 1] as u32;
    let b = src[base + 2] as u32;
    let l = (76 * r + 150 * g + 29 * b) >> 8u32;
    assert(l < 256 && l == (76 * r + 150 * g + 29 * b) / 256) by (bit_vector)
        requires
            r < 256,
            g < 256,
            b < 256,
            l == ((76 * r + 150 * g + 29 * b) as u32) >> 8u32,
    ;
    l as u8
}

proof fn lemma_pixel_base(i: int, count: int, channels: int)
    requires
        0 <= i < count,
        3 <= channels,
    ensures
        channels * i + 2 < channels * count,
        0 <= channels * i,
{
    assert(channels * i + 2 < channels * count && 0 <= channels * i) by (nonlinear_arith)
        requires
            0 <= i < count,
            3 <= channels,
    ;
}

fn luma_into(src: &[u8], channels: usize, output: &mut [u8], pixel_count: usize)
    requires
        channels == 3 || channels == 4,
        channels * pixel_count <= src@.len(),
        pixel_count <= old(output)@.len(),
    ensures
        final(output)@.len() == old(output)@.len(),
        holds_luma(src@, channels as int, final(output)@, pixel_count as int),
        forall|i: int| pixel_count <= i < old(output)@.len() ==> #[trigger] final(output)@[i] == old(output)@[i],
{
    let len = src.len();
    let mut i: usize = 0;
    while i < pixel_count
        invariant
            len == src@.len(),
            channels == 3 || channels == 4,
            channels * pixel_count <= src@.len(),
            pixel_count <= output@.len(),
            output@.len() == old(output)@.len(),
            0 <= i <= pixel_count,
            holds_luma(src@, channels as int, output@, i as int),
            forall|k: int| pixel_count <= k < old(output)@.len() ==> #[trigger] output@[k] == old(output)@[k],
        decreases pixel_count - i,
    {
        proof {
            lemma_pixel_base(i as int, pixel_count as int, channels as int);
        }
        let l = pixel_luma(src, channels * i);
        output[i] = l;
        i += 1;
    }
}

/// Luminance of the first `width * height` RGB pixels of `rgb`.
pub fn rgb_to_grayscale(rgb: &[u8], width: usize, height: usize) -> (gray: Vec<u8>)
    requires
        width * height <= usize::MAX,
        3 * (width * height) <= rgb@.len(),
    ensures
        gray@.len() == width * height,
        holds_luma(rgb@, 3, gray@, (width * height) as int),
{
    let pixel_count = width * height;
    let mut gray: Vec<u8> = vec![0u8; pixel_count];
    luma_into(rgb, 3, gray.as_mut_slice(), pixel_count);
    gray
}

/// Luminance of the first `width * height` RGBA pixels of `rgba`.
pub fn rgba_to_grayscale(rgba: &[u8], width: usize, height: usize) -> (gray: Vec<u8>)
    requires
        width * height <= usize::MAX,
        4 * (width * height) <= rgba@.len(),
    ensures
        gray@.len() == width * height,
        holds_luma(rgba@, 4, gray@, (width * height) as int),
{
    let pixel_count = width * height;
    let mut gray: Vec<u8> = vec![0u8; pixel_count];
    luma_into(rgba, 4, gray.as_mut_slice(), pixel_count);
    gray
}

/// Write the luminance of the first `width * height` RGB pixels into the
/// front of `output`, leaving the rest, and return the pixel count.
pub fn rgb_to_grayscale_with_buffer(rgb: &[u8], width: usize, height: usize, output: &mut [u8]) -> (n:
    usize)
    requires
        width * height <= usize::MAX,
        3 * (width * height) <= rgb@.len(),
        width * height <= old(output)@.len(),
    ensures
        n == width * height,
        final(output)@.len() == old(output)@.len(),
        holds_luma(rgb@, 3, final(output)@, n as int),
        forall|i: int| n <= i < old(output)@.len() ==> #[trigger] final(output)@[i] == old(output)@[i],
{
    let pixel_count = width * height;
    luma_into(rgb, 3, output, pixel_count);
    pixel_count
}

/// Write the luminance of the first `width * height` RGBA pixels into the
/// front of `output`, leaving the rest, and return the pixel count.
pub fn rgba_to_grayscale_with_buffer(rgba: &[u8], width: usize, height: usize, output: &mut [u8]) -> (n:
    usize)
    requires
        width * height <= usize::MAX,
        4 * (width * height) <= rgba@.len(),
        width * height <= old(output)@.len(),
    ensures
        n == width * height,
        final(output)@.len() == old(output)@.len(),
        holds_luma(rgba@, 4, final(output)@, n as int),
        forall|i: int| n <= i < old(output)@.len() ==> #[trigger] final(output)@[i] == old(output)@[i],
{
    let pixel_count = width * height;
    luma_into(rgba, 4, output, pixel_count);
    pixel_count
}

/// Convert row `y` of a `width`-wide image with `channels` bytes per pixel
/// into `row`, one luminance byte per pixel; used to convert rows in
/// parallel.
pub fn luma_row_into(src: &[u8], width: usize, y: usize, channels: usize, row: &mut [u8])
    requires
        channels == 3 || channels == 4,
        (y + 1) * width * channels <= src@.len(),
        (y + 1) * width * channels <= usize::MAX,
        old(row)@.len() == width,
    ensures
        final(row)@.len() == width,
        forall|x: int|
            0 <= x < width ==> #[trigger] final(row)@[x] as int == luma(
                src@[(y * width + x) * channels],
                src@[(y * width + x) * channels + 1],
                src@[(y * width + x) * channels + 2],
            ),
{
    let mut x: usize = 0;
    while x < width
        invariant
            channels == 3 || channels == 4,
            (y + 1) * width * channels <= src@.len(),
            (y + 1) * width * channels <= usize::MAX,
            row@.len() == width,
            0 <= x <= width,
            forall|k: int|
                0 <= k < x ==> #[trigger] row@[k] as int == luma(
                    src@[(y * width + k) * channels],
                    src@[(y * width + k) * channels + 1],
                    src@[(y * width + k) * channels + 2],
                ),
        decreases width - x,
    {
        proof {
            assert((y * width + x) * channels + 2 < (y + 1) * width * channels) by (nonlinear_arith)
                requires
                    x < width,
                    channels >= 3,
            ;
            assert(0 <= (y * width + x) * channels) by (nonlinear_arith);
        }
        let base = (y * width + x) * channels;
        row[x] = pixel_luma(src, base);
        x += 1;
    }
}

/// Converting an image row by row, each row as `luma_row_into` does, gives
/// the same grayscale image as converting it whole.
pub proof fn lemma_rows_give_whole_image(
    src: Seq<u8>,
    channels: int,
    width: int,
    height: int,
    gray: Seq<u8>,
)
    requires
        width >= 0,
        height >= 0,
        gray.len() == width * height,
        forall|y: int, x: int|
            0 <= y < height && 0 <= x < width ==> #[trigger] gray[y * width + x] as int == luma(
                src[(y * width + x) * channels],
                src[(y * width + x) * channels + 1],
                src[(y * width + x) * channels + 2],
            ),
    ensures
        holds_luma(src, channels, gray, width * height),
{
    assert forall|i: int| 0 <= i < width * height implies #[trigger] gray[i] as int == luma(
        src[channels * i],
        src[channels * i + 1],
        src[channels * i + 2],
    ) by {
        let y = i / width;
        let x = i % width;
        assert(width > 0) by (nonlinear_arith)
            requires
                0 <= i < width * height,
                width >= 0,
                height >= 0,
        ;
        assert(y * width + x == i && 0 <= x < width) by (nonlinear_arith)
            requires
                width > 0,
                y == i / width,
                x == i % width,
        ;
        assert(0 <= y < height) by (nonlinear_arith)
            requires
                width > 0,
                0 <= i < width * height,
                y == i / width,
        ;
        assert(channels * i == i * channels) by (nonlinear_arith);
        assert(gray[y * width + x] as int == luma(
            src[(y * width + x) * channels],
            src[(y * width + x) * channels + 1],
            src[(y * width + x) * channels + 2],
        ));
    }
}

} // verus!
