use rust_qr::pipeline::exposure::{contrast_stretch, is_overexposed};

#[test]
fn empty_and_dark_images_are_not_overexposed() {
    assert!(!is_overexposed(&[]));
    assert!(!is_overexposed(&[0, 10, 50, 100, 199]));
}

#[test]
fn more_than_a_fifth_bright_is_overexposed() {
    // one of five bright pixels is exactly a fifth: not more
    assert!(!is_overexposed(&[0, 0, 0, 0, 200]));
    assert!(is_overexposed(&[0, 0, 0, 200, 200]));
}

#[test]
fn bright_median_is_overexposed() {
    assert!(is_overexposed(&[181, 181, 181, 0]));
    // half of the pixels at or below 180 keeps the median at or below 180
    assert!(!is_overexposed(&[180, 185, 185, 185, 185, 10, 10, 10, 10, 185]));
}

#[test]
fn stretch_maps_extremes_and_rounds() {
    assert_eq!(contrast_stretch(&[]), Vec::<u8>::new());
    assert_eq!(contrast_stretch(&[10, 18, 14]), vec![10, 18, 14]);
    assert_eq!(contrast_stretch(&[10, 20, 15]), vec![0, 255, 128]);
    assert_eq!(contrast_stretch(&[0, 3, 9]), vec![0, 85, 255]);
}
