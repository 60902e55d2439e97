use rust_qr::detector::alignment::get_alignment_positions;

#[test]
fn test_version_1_no_alignment() {
    let positions = get_alignment_positions(1);
    assert!(positions.is_empty());
}

#[test]
fn test_version_2_has_alignment() {
    let positions = get_alignment_positions(2);
    assert!(!positions.is_empty());
    assert!(positions.contains(&(18, 18)));
}

#[test]
fn test_version_7() {
    let positions = get_alignment_positions(7);
    // Version 7: centers [6, 22, 38], size=45
    assert!(!positions.is_empty());
    assert!(!positions.contains(&(6, 6)));
    assert!(!positions.contains(&(6, 38)));
    assert!(!positions.contains(&(38, 6)));
    assert!(positions.contains(&(22, 22)));
    assert!(positions.contains(&(22, 6)));
    assert!(positions.contains(&(6, 22)));
    assert!(positions.contains(&(38, 22)));
    assert!(positions.contains(&(22, 38)));
    assert!(positions.contains(&(38, 38)));
}

#[test]
fn test_version_10() {
    let positions = get_alignment_positions(10);
    // Version 10: centers [6, 28, 50], size=57
    assert!(!positions.is_empty());
    assert!(positions.contains(&(28, 28)));
    assert!(positions.contains(&(50, 50)));
}

#[test]
fn test_version_14() {
    let positions = get_alignment_positions(14);
    // Version 14: centers [6, 26, 46, 66], size=73
    assert!(!positions.is_empty());
    assert!(positions.contains(&(26, 26)));
    assert!(positions.contains(&(46, 46)));
    assert!(positions.contains(&(66, 66)));
}

#[test]
fn version_2_has_exactly_one_alignment_position() {
    assert_eq!(get_alignment_positions(2), vec![(18, 18)]);
}

#[test]
fn version_7_positions_are_row_major_without_finder_corners() {
    assert_eq!(
        get_alignment_positions(7),
        vec![(6, 22), (22, 6), (22, 22), (22, 38), (38, 22), (38, 38)]
    );
}

#[test]
fn version_32_uses_the_special_spacing() {
    let positions = get_alignment_positions(32);
    // Version 32: centers [6, 34, 60, 86, 112, 138]
    assert_eq!(positions.len(), 6 * 6 - 3);
    assert!(positions.contains(&(34, 60)));
    assert!(positions.contains(&(138, 138)));
}

#[test]
fn version_40_has_forty_six_positions() {
    let positions = get_alignment_positions(40);
    assert_eq!(positions.len(), 7 * 7 - 3);
    assert!(positions.contains(&(170, 170)));
    assert!(!positions.contains(&(6, 170)));
}

#[test]
fn versions_outside_the_table_have_no_positions() {
    assert!(get_alignment_positions(0).is_empty());
    assert!(get_alignment_positions(41).is_empty());
    assert!(get_alignment_positions(255).is_empty());
}
