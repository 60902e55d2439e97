use rust_qr::pipeline::decode_budget::{DecodeGuard, decode_from_rgb_channels};
use rust_qr::pipeline::symbol_decode::{decode_from_grayscale, payload_from_text};

/// A version 1 symbol, error correction level L, mask 0, holding "HELLO".
const SAMPLE_SYMBOL: [&str; 21] = [
    "111111100101101111111",
    "100000100111001000001",
    "101110101101101011101",
    "101110100101001011101",
    "101110100010101011101",
    "100000100000101000001",
    "111111101010101111111",
    "000000001101100000000",
    "111011111111011000100",
    "000100001000001000010",
    "101000100010100011111",
    "110010001010001000010",
    "101001100110101010100",
    "000000001101010100110",
    "111111101001011100111",
    "100000101111110110000",
    "101110101001011100111",
    "101110100010001100110",
    "101110101110100010101",
    "100000101100001010010",
    "111111101100101100111",
];

fn render(rows: &[&str], scale: usize, quiet: usize) -> (Vec<u8>, usize) {
    let side = (rows.len() + 2 * quiet) * scale;
    let mut image = vec![255u8; side * side];
    for (y, row) in rows.iter().enumerate() {
        for (x, module) in row.bytes().enumerate() {
            if module == b'1' {
                for dy in 0..scale {
                    for dx in 0..scale {
                        image[((y + quiet) * scale + dy) * side + (x + quiet) * scale + dx] = 0;
                    }
                }
            }
        }
    }
    (image, side)
}

#[test]
fn rendered_symbol_decodes_to_its_payload() {
    let (image, side) = render(&SAMPLE_SYMBOL, 4, 4);
    let found = decode_from_grayscale(&image, side, side);
    assert_eq!(found.len(), 1);
    assert_eq!(found[0].payload, "HELLO");
    let (x, y) = found[0].corners[0];
    assert!((x - 16).abs() <= 2 && (y - 16).abs() <= 2);
    let (x, y) = found[0].corners[2];
    assert!((x - 100).abs() <= 2 && (y - 100).abs() <= 2);
}

#[test]
fn blank_images_decode_nothing() {
    assert!(decode_from_grayscale(&vec![255u8; 64 * 48], 64, 48).is_empty());
    assert!(decode_from_grayscale(&[], 0, 0).is_empty());
}

#[test]
fn payload_text_drops_only_trailing_nuls() {
    assert_eq!(payload_from_text("AB\0\0"), Some("AB".to_string()));
    assert_eq!(payload_from_text("A\0B"), Some("A\0B".to_string()));
    assert_eq!(payload_from_text("\0\0"), None);
    assert_eq!(payload_from_text(""), None);
}

fn to_rgb(gray: &[u8], channels: [bool; 3]) -> Vec<u8> {
    let mut rgb = Vec::with_capacity(gray.len() * 3);
    for &v in gray {
        for keep in channels {
            rgb.push(if keep { v } else { 255 });
        }
    }
    rgb
}

#[test]
fn colour_channels_are_decoded_one_by_one() {
    let (image, side) = render(&SAMPLE_SYMBOL, 4, 4);
    let red_only = to_rgb(&image, [true, false, false]);
    let mut guard = DecodeGuard::new(None);
    let found = decode_from_rgb_channels(&red_only, side, side, &mut guard);
    assert_eq!(found.len(), 1);
    assert_eq!(found[0].payload, "HELLO");

    let all = to_rgb(&image, [true, true, true]);
    let mut guard = DecodeGuard::new(None);
    let found = decode_from_rgb_channels(&all, side, side, &mut guard);
    assert_eq!(found.len(), 3);
    assert!(found.iter().all(|symbol| symbol.payload == "HELLO"));

    let mut spent = DecodeGuard::new(None);
    for _ in 0..15 {
        assert!(spent.try_consume_attempt());
    }
    let found = decode_from_rgb_channels(&all, side, side, &mut spent);
    assert_eq!(found.len(), 1);
}

#[test]
fn two_runs_left_decode_the_red_and_green_channels() {
    let (image, side) = render(&SAMPLE_SYMBOL, 4, 4);
    let green_only = to_rgb(&image, [false, true, false]);
    let blue_only = to_rgb(&image, [false, false, true]);
    let mut guard = DecodeGuard::new(None);
    for _ in 0..14 {
        assert!(guard.try_consume_attempt());
    }
    let mut spare = DecodeGuard::new(None);
    for _ in 0..14 {
        assert!(spare.try_consume_attempt());
    }
    assert_eq!(decode_from_rgb_channels(&green_only, side, side, &mut guard).len(), 1);
    assert!(!guard.try_consume_attempt());
    assert!(decode_from_rgb_channels(&blue_only, side, side, &mut spare).is_empty());
    assert!(!spare.try_consume_attempt());
}
