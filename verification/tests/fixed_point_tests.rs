use rust_qr::utils::fixed_point::{Fixed, FixedMatrix3x3};

#[test]
fn test_fixed_basic() {
    let one = Fixed::from_i32(1);
    let two = Fixed::from_i32(2);
    let three = one.add(&two);
    assert_eq!(three.to_i32(), 3);
}

#[test]
fn multiplication_and_division_of_integers() {
    let six = Fixed::from_i32(6);
    let minus_four = Fixed::from_i32(-4);
    assert_eq!(six.mul(&minus_four).to_i32(), -24);
    assert_eq!(six.div(&minus_four).map(|q| q.to_i32()), Some(-1));
    assert_eq!(Fixed::from_i32(7).div(&Fixed::from_i32(2)).unwrap().mul(&Fixed::from_i32(2)), Fixed::from_i32(7));
}

#[test]
fn division_by_zero_is_none() {
    assert!(Fixed::from_i32(3).div(&Fixed::from_i32(0)).is_none());
}

#[test]
fn integer_part_drops_the_fraction_toward_zero() {
    let half = Fixed::from_i32(1).div(&Fixed::from_i32(2)).unwrap();
    assert_eq!(half.to_i32(), 0);
    let minus_half = Fixed::from_i32(-1).div(&Fixed::from_i32(2)).unwrap();
    assert_eq!(minus_half.to_i32(), 0);
    let minus_three_halves = Fixed::from_i32(-3).div(&Fixed::from_i32(2)).unwrap();
    assert_eq!(minus_three_halves.to_i32(), -1);
    let minus_half = Fixed::from_i32(-1).add(&Fixed::from_i32(1).div(&Fixed::from_i32(2)).unwrap());
    assert_eq!(minus_half.to_i32(), 0);
}

#[test]
fn integers_round_trip_in_sixteen_bits() {
    for n in [-32768, -1, 0, 1, 255, 32767] {
        assert_eq!(Fixed::from_i32(n).to_i32(), n);
    }
    // 32768 wraps to the bottom of the range
    assert_eq!(Fixed::from_i32(32768).to_i32(), -32768);
}

#[test]
fn identity_matrix_has_ones_on_the_diagonal() {
    let id = FixedMatrix3x3::identity();
    for i in 0..3 {
        for j in 0..3 {
            let expected = if i == j { 1 } else { 0 };
            assert_eq!(id.m[i][j].to_i32(), expected);
        }
    }
}
