use rust_qr::detector::pyramid::ImagePyramid;
use rust_qr::BitMatrix;

#[test]
fn test_downscale_by_2() {
    let mut original = BitMatrix::new(400, 400);
    for y in 150..250 {
        for x in 150..250 {
            original.set(x, y, true);
        }
    }

    let pyramid = ImagePyramid::new(original);

    assert!(pyramid.level1.is_some());
    let level1 = pyramid.level1.as_ref().unwrap();
    assert_eq!(level1.width(), 200);
    assert_eq!(level1.height(), 200);

    assert!(level1.get(100, 100));
}

#[test]
fn test_pyramid_levels() {
    let small = BitMatrix::new(100, 100);
    let pyramid_small = ImagePyramid::new(small);
    assert!(pyramid_small.level1.is_none());
    assert!(pyramid_small.level2.is_none());

    let medium = BitMatrix::new(500, 500);
    let pyramid_medium = ImagePyramid::new(medium);
    assert!(pyramid_medium.level1.is_some());
    assert!(pyramid_medium.level2.is_none());

    let large = BitMatrix::new(1000, 1000);
    let pyramid_large = ImagePyramid::new(large);
    assert!(pyramid_large.level1.is_some());
    assert!(pyramid_large.level2.is_some());
}

#[test]
fn half_scale_uses_majority_of_each_block() {
    let mut m = BitMatrix::new(802, 803);
    // block (0, 0): two dark cells -> dark
    m.set(0, 0, true);
    m.set(1, 1, true);
    // block (1, 0): one dark cell -> light
    m.set(2, 0, true);
    // block (2, 0): all four dark -> dark
    for (x, y) in [(4, 0), (5, 0), (4, 1), (5, 1)] {
        m.set(x, y, true);
    }
    let pyramid = ImagePyramid::new(m);
    let level1 = pyramid.level1.as_ref().unwrap();
    assert_eq!(level1.width(), 401);
    assert_eq!(level1.height(), 401);
    assert!(level1.get(0, 0));
    assert!(!level1.get(1, 0));
    assert!(level1.get(2, 0));
    let level2 = pyramid.level2.as_ref().unwrap();
    assert_eq!((level2.width(), level2.height()), (200, 200));
    // level-1 block (0, 0) has one dark cell of four
    assert!(!level2.get(0, 0));
    assert_eq!(pyramid.original_width, 802);
    assert_eq!(pyramid.original_height, 803);
    assert_eq!(pyramid.full_resolution().height(), 803);
}

#[test]
fn eight_hundred_pixel_images_get_two_levels() {
    let pyramid = ImagePyramid::new(BitMatrix::new(800, 800));
    assert!(pyramid.level1.is_some());
    assert!(pyramid.level2.is_none());
    let pyramid = ImagePyramid::new(BitMatrix::new(801, 801));
    assert!(pyramid.level2.is_some());
}
