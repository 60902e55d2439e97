use rust_qr::pipeline::crop_decode::{decode_from_crops, decode_from_grid_crops};
use rust_qr::pipeline::decode_budget::DecodeGuard;

/// A version 1 symbol, error correction level L, mask 0, holding "HELLO".
const SAMPLE_SYMBOL: [&str; 21] = [
    "111111100101101111111",
    "100000100111001000001",
    "101110101101101011101",
    "101110100101001011101",
    "101110100010101011101",
    "100000100000101000001",
    "111111101010101111111",
    "000000001101100000000",
    "111011111111011000100",
    "000100001000001000010",
    "101000100010100011111",
    "110010001010001000010",
    "101001100110101010100",
    "000000001101010100110",
    "111111101001011100111",
    "100000101111110110000",
    "101110101001011100111",
    "101110100010001100110",
    "101110101110100010101",
    "100000101100001010010",
    "111111101100101100111",
];

/// A white `width` by `height` canvas with the sample symbol drawn at
/// `(left, top)`, four pixels per module.
fn canvas(width: usize, height: usize, left: usize, top: usize) -> Vec<u8> {
    let mut image = vec![255u8; width * height];
    for (y, row) in SAMPLE_SYMBOL.iter().enumerate() {
        for (x, module) in row.bytes().enumerate() {
            if module == b'1' {
                for dy in 0..4 {
                    for dx in 0..4 {
                        image[(top + y * 4 + dy) * width + left + x * 4 + dx] = 0;
                    }
                }
            }
        }
    }
    image
}

#[test]
fn crop_corners_come_back_in_image_coordinates() {
    let image = canvas(400, 300, 216, 136);
    let mut guard = DecodeGuard::new(None);
    let found = decode_from_crops(&image, 400, 300, &[(258, 178)], &[160], 10, &mut guard);
    assert_eq!(found.len(), 1);
    assert_eq!(found[0].payload, "HELLO");
    let (x, y) = found[0].corners[0];
    assert!((x - 216).abs() <= 2 && (y - 136).abs() <= 2);
    let (x, y) = found[0].corners[2];
    assert!((x - 300).abs() <= 2 && (y - 220).abs() <= 2);
}

#[test]
fn small_crops_are_skipped_and_take_no_attempt() {
    let image = canvas(400, 300, 216, 136);
    let mut guard = DecodeGuard::new(None);
    let found = decode_from_crops(&image, 400, 300, &[(258, 178)], &[20], 10, &mut guard);
    assert!(found.is_empty());
    for _ in 0..16 {
        assert!(guard.try_consume_attempt());
    }
    assert!(!guard.try_consume_attempt());
}

#[test]
fn crop_decoding_stops_at_the_result_limit() {
    let image = canvas(400, 300, 216, 136);
    let mut guard = DecodeGuard::new(None);
    let centres = [(258, 178), (258, 178), (258, 178)];
    let found = decode_from_crops(&image, 400, 300, &centres, &[160, 200], 1, &mut guard);
    assert_eq!(found.len(), 1);
    // Only one locator run was used.
    for _ in 0..15 {
        assert!(guard.try_consume_attempt());
    }
    assert!(!guard.try_consume_attempt());
}

#[test]
fn a_spent_guard_decodes_no_crop() {
    let image = canvas(400, 300, 216, 136);
    let mut guard = DecodeGuard::new(None);
    for _ in 0..16 {
        assert!(guard.try_consume_attempt());
    }
    assert!(decode_from_crops(&image, 400, 300, &[(258, 178)], &[160], 10, &mut guard).is_empty());
}

#[test]
fn grid_rescue_finds_an_off_centre_symbol() {
    let image = canvas(400, 300, 216, 136);
    let mut guard = DecodeGuard::new(None);
    let found = decode_from_grid_crops(&image, 400, 300, &mut guard);
    assert!(!found.is_empty());
    assert!(found.iter().all(|symbol| symbol.payload == "HELLO"));
    let mut guard = DecodeGuard::new(None);
    assert!(decode_from_grid_crops(&[], 0, 0, &mut guard).is_empty());
    assert!(decode_from_grid_crops(&vec![255u8; 400 * 300], 400, 300, &mut guard).is_empty());
}
