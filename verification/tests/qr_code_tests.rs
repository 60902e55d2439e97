use rust_qr::{ECLevel, MaskPattern, Version};

#[test]
fn test_version_size() {
    assert_eq!(Version::Model2(1).size(), 21);
    assert_eq!(Version::Model2(2).size(), 25);
    assert_eq!(Version::Model2(40).size(), 177);
}

#[test]
fn test_ec_level() {
    assert_eq!(ECLevel::from_bits(0b00), Some(ECLevel::L));
    assert_eq!(ECLevel::from_bits(0b01), Some(ECLevel::M));
    assert_eq!(ECLevel::from_bits(0b10), Some(ECLevel::Q));
    assert_eq!(ECLevel::from_bits(0b11), Some(ECLevel::H));
}

#[test]
fn test_mask_pattern() {
    let mask = MaskPattern::Pattern0;
    assert!(mask.is_masked(0, 0));
    assert!(!mask.is_masked(0, 1));
    assert!(mask.is_masked(1, 1));
}

#[test]
fn micro_versions_have_their_own_sizes() {
    assert_eq!(Version::Micro(1).size(), 11);
    assert_eq!(Version::Micro(4).size(), 17);
    assert!(Version::Micro(2).is_micro());
    assert!(!Version::Model1(2).is_micro());
    assert_eq!(Version::Model1(14).number(), 14);
    assert_eq!(Version::Model1(3).size(), 29);
}

#[test]
fn mask_bits_select_the_pattern() {
    assert_eq!(MaskPattern::from_bits(0), Some(MaskPattern::Pattern0));
    assert_eq!(MaskPattern::from_bits(7), Some(MaskPattern::Pattern7));
    // Pattern 1 masks even rows.
    let mask = MaskPattern::from_bits(1).unwrap();
    assert!(mask.is_masked(2, 5));
    assert!(!mask.is_masked(3, 5));
}
