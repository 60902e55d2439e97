use rust_qr::utils::binarization::{
    adaptive_binarize, build_integral_image, build_integral_sq_image, otsu_binarize,
    query_integral_sq_sum, query_integral_sum, threshold_binarize,
};
use rust_qr::utils::otsu::calculate_otsu_threshold;

#[test]
fn test_threshold_binarize() {
    let gray = vec![100, 150, 200, 50];
    let binary = threshold_binarize(&gray, 2, 2, 128);

    assert!(binary.get(0, 0));
    assert!(!binary.get(1, 0));
    assert!(!binary.get(0, 1));
    assert!(binary.get(1, 1));
}

#[test]
fn test_otsu_binarize() {
    let mut gray = vec![50u8; 50];
    gray.extend(vec![200u8; 50]);

    let binary = otsu_binarize(&gray, 10, 10);

    assert!(binary.get(0, 0));
    assert!(!binary.get(0, 7));
}

#[test]
fn test_integral_image() {
    let gray = vec![1, 2, 3, 4, 5, 6, 7, 8, 9];
    let integral = build_integral_image(&gray, 3, 3);

    let total = query_integral_sum(&integral, 3, 3, 0, 0, 2, 2);
    assert_eq!(total, 45);

    let sum_2x2 = query_integral_sum(&integral, 3, 3, 0, 0, 1, 1);
    assert_eq!(sum_2x2, 12);

    let single = query_integral_sum(&integral, 3, 3, 1, 1, 1, 1);
    assert_eq!(single, 5);
}

#[test]
fn test_adaptive_binarize() {
    let mut gray = Vec::new();
    for _y in 0..10 {
        for x in 0..10 {
            if x < 5 {
                gray.push(50u8);
            } else {
                gray.push(200u8);
            }
        }
    }

    let binary = adaptive_binarize(&gray, 10, 10, 5);

    assert_eq!(binary.width(), 10);
    assert_eq!(binary.height(), 10);
}

#[test]
fn test_integral_sq_image() {
    let gray = vec![1, 2, 3, 4, 5, 6, 7, 8, 9];
    let integral_sq = build_integral_sq_image(&gray, 3, 3);

    let total = query_integral_sq_sum(&integral_sq, 3, 0, 0, 2, 2);
    assert_eq!(total, 285);

    let single = query_integral_sq_sum(&integral_sq, 3, 1, 1, 1, 1);
    assert_eq!(single, 25);
}

#[test]
fn otsu_threshold_of_two_classes_is_the_first_best_split() {
    let mut gray = vec![50u8; 50];
    gray.extend(vec![200u8; 50]);
    // Every threshold in 51..=200 separates the classes equally well; the
    // first one wins.
    assert_eq!(calculate_otsu_threshold(&gray), 51);
}

#[test]
fn otsu_threshold_of_a_flat_image_is_128() {
    assert_eq!(calculate_otsu_threshold(&[77u8; 16]), 128);
    assert_eq!(calculate_otsu_threshold(&[]), 128);
}

#[test]
fn adaptive_marks_pixels_below_the_local_mean() {
    let mut gray = Vec::new();
    for _y in 0..10 {
        for x in 0..10 {
            gray.push(if x < 5 { 50u8 } else { 200u8 });
        }
    }
    let binary = adaptive_binarize(&gray, 10, 10, 5);
    // next to the edge the dark side is below the window mean
    assert!(binary.get(4, 5));
    // far from the edge the window is uniform: not below its own mean
    assert!(!binary.get(0, 5));
    assert!(!binary.get(9, 5));
}

#[test]
fn otsu_handles_a_large_dark_image_whose_sum_fits() {
    // 17 million pixels: more than u32::MAX / 255, yet the pixel sum is small.
    let width = 4250usize;
    let height = 4000usize;
    let mut gray = vec![1u8; width * height / 2];
    gray.extend(vec![3u8; width * height / 2]);
    assert_eq!(calculate_otsu_threshold(&gray), 2);
    let binary = otsu_binarize(&gray, width, height);
    assert_eq!(binary.width(), width);
    assert_eq!(binary.height(), height);
    assert!(binary.get(0, 0));
    assert!(!binary.get(width - 1, height - 1));
}
