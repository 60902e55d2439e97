use rust_qr::BitMatrix;

#[test]
fn test_bit_matrix() {
    let mut matrix = BitMatrix::new(8, 8);
    assert_eq!(matrix.width(), 8);
    assert_eq!(matrix.height(), 8);

    matrix.set(3, 4, true);
    assert!(matrix.get(3, 4));
    assert!(!matrix.get(3, 3));

    matrix.toggle(3, 4);
    assert!(!matrix.get(3, 4));

    matrix.clear();
    assert!(!matrix.get(3, 4));
}

#[test]
fn test_out_of_bounds() {
    let mut matrix = BitMatrix::new(8, 8);
    matrix.set(10, 10, true);
    assert!(!matrix.get(10, 10));
}

#[test]
fn bits_are_packed_row_major_least_significant_first() {
    let mut matrix = BitMatrix::new(5, 3);
    assert_eq!(matrix.as_bytes().len(), 2);
    matrix.set(0, 0, true);
    matrix.set(2, 1, true); // index 7
    matrix.set(3, 1, true); // index 8
    assert_eq!(matrix.as_bytes(), &[0b1000_0001, 0b0000_0001]);
    matrix.toggle(0, 0);
    assert_eq!(matrix.as_bytes()[0], 0b1000_0000);
}

#[test]
fn reset_resizes_and_clears() {
    let mut matrix = BitMatrix::new(3, 3);
    matrix.set(1, 1, true);
    matrix.reset(4, 2);
    assert_eq!((matrix.width(), matrix.height()), (4, 2));
    assert!(!matrix.get(1, 1));
    assert_eq!(matrix.as_bytes(), &[0u8]);
}

#[test]
fn write_then_read_each_cell() {
    let mut matrix = BitMatrix::new(7, 5);
    for y in 0..5 {
        for x in 0..7 {
            matrix.set(x, y, (x + y) % 3 == 0);
        }
    }
    for y in 0..5 {
        for x in 0..7 {
            assert_eq!(matrix.get(x, y), (x + y) % 3 == 0);
        }
    }
}
