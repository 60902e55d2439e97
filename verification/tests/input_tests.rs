use rust_qr::input::{grayscale_into, input_to_grayscale, validate_input};
use rust_qr::{ImageInput, InputError, PixelFormat};

#[test]
fn padded_pixel_formats_normalize_equivalently() {
    let grayscale = [17, 47, 77, 107, 0, 0, 137, 167, 197, 227];
    let rgb = [
        18, 18, 18, 48, 48, 48, 78, 78, 78, 108, 108, 108, 255, 255, 255, 138, 138, 138, 168,
        168, 168, 198, 198, 198, 228, 228, 228,
    ];
    let rgba = [
        18, 18, 18, 1, 48, 48, 48, 2, 78, 78, 78, 3, 108, 108, 108, 4, 255, 255, 255, 255, 138,
        138, 138, 5, 168, 168, 168, 6, 198, 198, 198, 7, 228, 228, 228, 8,
    ];

    let expected = vec![17, 47, 77, 107, 137, 167, 197, 227];
    assert_eq!(
        input_to_grayscale(
            ImageInput::new(&grayscale, 4, 2, PixelFormat::Grayscale).with_stride(6)
        ),
        Ok(expected.clone())
    );
    assert_eq!(
        input_to_grayscale(ImageInput::new(&rgb, 4, 2, PixelFormat::Rgb).with_stride(15)),
        Ok(expected.clone())
    );
    assert_eq!(
        input_to_grayscale(ImageInput::new(&rgba, 4, 2, PixelFormat::Rgba).with_stride(20)),
        Ok(expected)
    );
}

#[test]
fn zero_dimensions_are_rejected() {
    let data = [0u8; 4];
    assert_eq!(
        validate_input(ImageInput::new(&data, 0, 2, PixelFormat::Grayscale)),
        Err(InputError::ZeroDimension)
    );
    assert_eq!(
        input_to_grayscale(ImageInput::new(&data, 2, 0, PixelFormat::Rgb)),
        Err(InputError::ZeroDimension)
    );
}

#[test]
fn row_size_overflow_is_rejected() {
    let data = [0u8; 4];
    assert_eq!(
        validate_input(ImageInput::new(&data, usize::MAX / 2, 1, PixelFormat::Rgb)),
        Err(InputError::DimensionOverflow)
    );
}

#[test]
fn short_stride_is_rejected() {
    let data = [0u8; 64];
    assert_eq!(
        validate_input(ImageInput::new(&data, 4, 2, PixelFormat::Rgb).with_stride(11)),
        Err(InputError::InvalidStride { stride: 11, minimum: 12 })
    );
}

#[test]
fn short_buffer_is_rejected() {
    let data = [0u8; 26];
    assert_eq!(
        validate_input(ImageInput::new(&data, 4, 2, PixelFormat::Rgb).with_stride(15)),
        Err(InputError::BufferTooShort { required: 27, actual: 26 })
    );
}

#[test]
fn valid_input_reports_row_size_and_stride() {
    let data = [0u8; 27];
    assert_eq!(
        validate_input(ImageInput::new(&data, 4, 2, PixelFormat::Rgb).with_stride(15)),
        Ok((12, 15))
    );
    assert_eq!(
        validate_input(ImageInput::new(&data, 3, 2, PixelFormat::Grayscale)),
        Ok((3, 3))
    );
}

#[test]
fn rgb_luma_uses_integer_weights() {
    let rgb = [255u8, 0, 0, 0, 255, 0, 0, 0, 255];
    // (76 * 255) >> 8 = 75, (150 * 255) >> 8 = 149, (29 * 255) >> 8 = 28
    assert_eq!(
        input_to_grayscale(ImageInput::new(&rgb, 3, 1, PixelFormat::Rgb)),
        Ok(vec![75, 149, 28])
    );
}

#[test]
fn padded_pixel_formats_fill_the_same_luma_image() {
    let grayscale = [17, 47, 77, 107, 0, 0, 137, 167, 197, 227];
    let rgb = [
        18, 18, 18, 48, 48, 48, 78, 78, 78, 108, 108, 108, 255, 255, 255, 138, 138, 138, 168,
        168, 168, 198, 198, 198, 228, 228, 228,
    ];
    let rgba = [
        18, 18, 18, 1, 48, 48, 48, 2, 78, 78, 78, 3, 108, 108, 108, 4, 255, 255, 255, 255, 138,
        138, 138, 5, 168, 168, 168, 6, 198, 198, 198, 7, 228, 228, 228, 8,
    ];
    let expected = vec![17u8, 47, 77, 107, 137, 167, 197, 227];
    let inputs = [
        ImageInput::new(&grayscale, 4, 2, PixelFormat::Grayscale).with_stride(6),
        ImageInput::new(&rgb, 4, 2, PixelFormat::Rgb).with_stride(15),
        ImageInput::new(&rgba, 4, 2, PixelFormat::Rgba).with_stride(20),
    ];
    for input in inputs {
        let mut gray = Vec::new();
        grayscale_into(input, &mut gray);
        assert_eq!(gray, expected);
    }
}
