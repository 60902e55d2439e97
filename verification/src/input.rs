//! Validated image descriptions: pixel layouts, row strides, the checks that
//! reject malformed layouts, and conversion to one luminance byte per pixel.

use vstd::prelude::*;

verus! {

/// Pixel layout for an [`ImageInput`].
#[derive(Debug, Clone, Copy, PartialEq, Eq, Structural)]
pub enum PixelFormat {
    /// One luminance byte per pixel.
    Grayscale,
    /// Three interleaved bytes per pixel, in red-green-blue order.
    Rgb,
    /// Four interleaved bytes per pixel, in red-green-blue-alpha order.
    Rgba,
}

/// Bytes each pixel of `f` occupies.
pub open spec fn spec_bytes_per_pixel(f: PixelFormat) -> usize {
    match f {
        PixelFormat::Grayscale => 1,
        PixelFormat::Rgb => 3,
        PixelFormat::Rgba => 4,
    }
}

impl PixelFormat {
    fn bytes_per_pixel(self) -> (n: usize)
        ensures
            n == spec_bytes_per_pixel(self),
    {
        match self {
            PixelFormat::Grayscale => 1,
            PixelFormat::Rgb => 3,
            PixelFormat::Rgba => 4,
        }
    }
}

/// A borrowed image: pixel bytes, dimensions, layout and row stride.
#[derive(Debug, Clone, Copy)]
pub struct ImageInput<'a> {
    pub data: &'a [u8],
    pub width: usize,
    pub height: usize,
    pub pixel_format: PixelFormat,
    /// Bytes between the starts of adjacent rows. `None` means tightly packed.
    pub stride: Option<usize>,
}

impl<'a> ImageInput<'a> {
    /// A tightly packed image.
    pub fn new(data: &'a [u8], width: usize, height: usize, pixel_format: PixelFormat) -> (i: Self)
        ensures
            i.data@ == data@,
            i.width == width,
            i.height == height,
            i.pixel_format == pixel_format,
            i.stride.is_none(),
    {
        ImageInput { data, width, height, pixel_format, stride: None }
    }

    /// The same image with `stride` bytes between adjacent row starts.
    pub fn with_stride(self, stride: usize) -> (i: Self)
        ensures
            i.data@ == self.data@,
            i.width == self.width,
            i.height == self.height,
            i.pixel_format == self.pixel_format,
            i.stride == Some(stride),
    {
        let mut i = self;
        i.stride = Some(stride);
        i
    }
}

/// Validation failures returned by fallible image entry points.
#[derive(Debug, Clone, PartialEq, Eq, Structural)]
pub enum InputError {
    /// Width and height must both be non-zero.
    ZeroDimension,
    /// A dimension, channel, or stride calculation overflowed `usize`.
    DimensionOverflow,
    /// The row stride cannot contain one complete row.
    InvalidStride { stride: usize, minimum: usize },
    /// The input slice does not contain all addressed pixels.
    BufferTooShort { required: usize, actual: usize },
}

/// Bytes of one row of pixels.
pub open spec fn row_bytes(input: ImageInput) -> int {
    input.width * spec_bytes_per_pixel(input.pixel_format)
}

/// Bytes between row starts: the given stride, or one row when packed.
pub open spec fn row_stride(input: ImageInput) -> int {
    match input.stride {
        Some(s) => s as int,
        None => row_bytes(input),
    }
}

/// Bytes needed to hold every addressed pixel: all rows but the last at full
/// stride, and the last row's pixels.
pub open spec fn required_bytes(input: ImageInput) -> int {
    (input.height - 1) * row_stride(input) + row_bytes(input)
}

/// The outcome of validating `input`, checked in this order: both sides
/// non-zero, the row size fits in `usize`, the stride holds a row, the
/// addressed span fits in `usize`, the buffer holds that span, and the pixel
/// count fits in `usize`. On success, the row size and the stride.
pub open spec fn input_check(input: ImageInput) -> Result<(usize, usize), InputError> {
    if input.width == 0 || input.height == 0 {
        Err(InputError::ZeroDimension)
    } else if row_bytes(input) > usize::MAX {
        Err(InputError::DimensionOverflow)
    } else if row_stride(input) < row_bytes(input) {
        Err(
            InputError::InvalidStride {
                stride: row_stride(input) as usize,
                minimum: row_bytes(input) as usize,
            },
        )
    } else if required_bytes(input) > usize::MAX {
        Err(InputError::DimensionOverflow)
    } else if input.data@.len() < required_bytes(input) {
        Err(
            InputError::BufferTooShort {
                required: required_bytes(input) as usize,
                actual: input.data@.len() as usize,
            },
        )
    } else if input.width * input.height > usize::MAX {
        Err(InputError::DimensionOverflow)
    } else {
        Ok((row_bytes(input) as usize, row_stride(input) as usize))
    }
}

/// Luminance of an RGB triple: `(76 r + 150 g + 29 b) / 256`.
pub open spec fn luma(r: u8, g: u8, b: u8) -> int {
    (76 * r + 150 * g + 29 * b) / 256
}

/// The luminance of pixel `(x, y)` of `input`: the byte itself for
/// grayscale, the luma of the first three channels otherwise.
pub open spec fn pixel_luma(input: ImageInput, x: int, y: int) -> int {
    let base = y * row_stride(input) + x * spec_bytes_per_pixel(input.pixel_format);
    match input.pixel_format {
        PixelFormat::Grayscale => input.data@[base] as int,
        _ => luma(input.data@[base], input.data@[base + 1], input.data@[base + 2]),
    }
}

proof fn lemma_span_bounds(x: int, y: int, w: int, h: int, bpp: int, stride: int)
    requires
        0 <= x < w,
        0 <= y < h,
        0 <= bpp,
        w * bpp <= stride,
    ensures
        0 <= x * bpp,
        x * bpp + bpp <= w * bpp,
        0 <= y * stride <= (h - 1) * stride,
{
    assert(0 <= x * bpp && x * bpp + bpp <= w * bpp) by (nonlinear_arith)
        requires
            0 <= x < w,
            0 <= bpp,
    ;
    assert(0 <= y * stride <= (h - 1) * stride) by (nonlinear_arith)
        requires
            0 <= y < h,
            0 <= w * bpp <= stride,
            0 <= bpp,
            0 <= w,
    ;
}

/// Validate `input`; on success return the row size and the stride.
pub fn validate_input(input: ImageInput<'_>) -> (r: Result<(usize, usize), InputError>)
    ensures
        r == input_check(input),
{
    if input.width == 0 || input.height == 0 {
        return Err(InputError::ZeroDimension);
    }
    let row_bytes = match input.width.checked_mul(input.pixel_format.bytes_per_pixel()) {
        Some(n) => n,
        None => {
            return Err(InputError::DimensionOverflow);
        },
    };
    let stride = match input.stride {
        Some(s) => s,
        None => row_bytes,
    };
    if stride < row_bytes {
        return Err(InputError::InvalidStride { stride, minimum: row_bytes });
    }
    let offset = match (input.height - 1).checked_mul(stride) {
        Some(o) => o,
        None => {
            assert((input.height - 1) * stride + row_bytes > usize::MAX);
            return Err(InputError::DimensionOverflow);
        },
    };
    let required = match offset.checked_add(row_bytes) {
        Some(r) => r,
        None => {
            return Err(InputError::DimensionOverflow);
        },
    };
    if input.data.len() < required {
        return Err(InputError::BufferTooShort { required, actual: input.data.len() });
    }
    match input.width.checked_mul(input.height) {
        Some(_) => {},
        None => {
            return Err(InputError::DimensionOverflow);
        },
    }
    Ok((row_bytes, stride))
}

/// Whether `g` is the luminance image of `input`: one byte per pixel,
/// row-major.
pub open spec fn is_luma_image(input: ImageInput, g: Seq<u8>) -> bool {
    &&& g.len() == input.width * input.height
    &&& forall|i: int|
        0 <= i < g.len() ==> #[trigger] g[i] as int == pixel_luma(
            input,
            i % (input.width as int),
            i / (input.width as int),
        )
}

/// Convert `input` to one luminance byte per pixel, row-major. Fails with the
/// validation error, or with `DimensionOverflow` when the output buffer
/// cannot be reserved; otherwise the image is that of `grayscale_into`.
pub fn input_to_grayscale(input: ImageInput<'_>) -> (r: Result<Vec<u8>, InputError>)
    ensures
        input_check(input) is Err ==> r is Err && r->Err_0 == input_check(input)->Err_0,
        input_check(input) is Ok ==> match r {
            Ok(g) => is_luma_image(input, g@),
            Err(e) => e == InputError::DimensionOverflow,
        },
{
    match validate_input(input) {
        Ok(_) => {},
        Err(e) => {
            return Err(e);
        },
    }
    let pixel_count = input.width * input.height;
    let mut gray: Vec<u8> = Vec::new();
    match gray.try_reserve(pixel_count) {
        Ok(()) => {},
        Err(_) => {
            return Err(InputError::DimensionOverflow);
        },
    }
    grayscale_into(input, &mut gray);
    Ok(gray)
}

/// Append the luminance image of a valid `input` to the empty buffer `gray`:
/// one byte per pixel, row-major, the byte itself for grayscale and
/// `(76 r + 150 g + 29 b) / 256` for colour, skipping row padding.
pub fn grayscale_into(input: ImageInput<'_>, gray: &mut Vec<u8>)
    requires
        input_check(input) is Ok,
        old(gray)@.len() == 0,
    ensures
        is_luma_image(input, final(gray)@),
{
    let (row_bytes, stride) = match validate_input(input) {
        Ok(v) => v,
        Err(_) => (0, 0),
    };
    let width = input.width;
    let height = input.height;
    let pixel_count = width * height;
    let bpp = input.pixel_format.bytes_per_pixel();
    let ghost w = width as int;
    let mut y: usize = 0;
    let mut row_start: usize = 0;
    while y < height
        invariant
            input_check(input) == Ok::<(usize, usize), InputError>((row_bytes, stride)),
            width == input.width,
            height == input.height,
            w == width,
            w > 0,
            height > 0,
            bpp == spec_bytes_per_pixel(input.pixel_format),
            row_bytes == w * bpp,
            stride == row_stride(input),
            pixel_count == w * height,
            0 <= y <= height,
            y < height ==> row_start == y * stride,
            gray@.len() == y * w,
            forall|i: int|
                0 <= i < gray@.len() ==> #[trigger] gray@[i] as int == pixel_luma(
                    input,
                    i % w,
                    i / w,
                ),
        decreases height - y,
    {
        let ghost row_len = gray@.len();
        let mut x: usize = 0;
        let mut px: usize = 0;
        while x < width
            invariant
                input_check(input) == Ok::<(usize, usize), InputError>((row_bytes, stride)),
                width == input.width,
                height == input.height,
                w == width,
                w > 0,
                bpp == spec_bytes_per_pixel(input.pixel_format),
                row_bytes == w * bpp,
                stride == row_stride(input),
                0 <= y < height,
                row_start == y * stride,
                row_len == y * w,
                0 <= x <= width,
                px == x * bpp,
                gray@.len() == y * w + x,
                forall|i: int|
                    0 <= i < gray@.len() ==> #[trigger] gray@[i] as int == pixel_luma(
                        input,
                        i % w,
                        i / w,
                    ),
            decreases width - x,
        {
            proof {
                lemma_span_bounds(x as int, y as int, w, height as int, bpp as int, stride as int);
                assert(y * w + x == (y * w + x)) ;
                vstd::arithmetic::div_mod::lemma_fundamental_div_mod_converse(
                    y * w + x,
                    w,
                    y as int,
                    x as int,
                );
            }
            let base = row_start + px;
            let value: u8 = match input.pixel_format {
                PixelFormat::Grayscale => input.data[base],
                _ => {
                    let r = input.data[base] as u32;
                    let g = input.data[base + 1] as u32;
                    let b = input.data[base + 2] as u32;
                    let l = (76 * r + 150 * g + 29 * b) >> 8u32;
                    assert(l < 256) by (bit_vector)
                        requires
                            r < 256,
                            g < 256,
                            b < 256,
                            l == ((76 * r + 150 * g + 29 * b) as u32) >> 8u32,
                    ;
                    l as u8
                },
            };
            proof {
                if input.pixel_format != PixelFormat::Grayscale {
                    let r = input.data@[base as int] as u32;
                    let g = input.data@[base + 1] as u32;
                    let b = input.data@[base + 2] as u32;
                    assert(((76 * r + 150 * g + 29 * b) as u32) >> 8u32 == (76 * r + 150 * g + 29 * b) / 256)
                        by (bit_vector)
                        requires
                            r < 256,
                            g < 256,
                            b < 256,
                    ;
                }
            }
            gray.push(value);
            x += 1;
            px += bpp;
            proof {
                assert(px == x * bpp) by (nonlinear_arith)
                    requires
                        px == (x - 1) * bpp + bpp,
                ;
            }
        }
        y += 1;
        if y < height {
            proof {
                lemma_span_bounds(0, y as int, w, height as int, bpp as int, stride as int);
                assert(row_start + stride == y * stride) by (nonlinear_arith)
                    requires
                        row_start == (y - 1) * stride,
                ;
            }
            row_start += stride;
        }
        proof {
            assert(gray@.len() == y * w) by (nonlinear_arith)
                requires
                    gray@.len() == (y - 1) * w + w,
            ;
            if y < height {
                assert(row_start == y * stride) by (nonlinear_arith)
                    requires
                        row_start == (y - 1) * stride + stride,
                ;
            }
        }
    }
    assert(gray@.len() == pixel_count) by {
        assert(w * height == height * w) by (nonlinear_arith);
    }
}

} // verus!
