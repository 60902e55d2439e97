use rust_qr::detector::connected_components::{
    UnionFind, find_black_regions, find_white_regions, sort_bboxes,
};
use rust_qr::BitMatrix;

#[test]
fn test_find_black_regions() {
    let mut matrix = BitMatrix::new(10, 10);
    matrix.set(2, 2, true);
    matrix.set(3, 2, true);
    matrix.set(2, 3, true);
    matrix.set(3, 3, true);

    let regions = find_black_regions(&matrix);
    assert_eq!(regions.len(), 1);
    assert_eq!(regions[0], (2, 2, 3, 3));
}

#[test]
fn regions_are_returned_in_raster_order() {
    let mut matrix = BitMatrix::new(12, 12);
    matrix.set(8, 2, true);
    matrix.set(2, 7, true);
    matrix.set(3, 7, true);

    assert_eq!(
        find_black_regions(&matrix),
        vec![(8, 2, 8, 2), (2, 7, 3, 7)]
    );
}

#[test]
fn finds_enclosed_white_ring_separately_from_background() {
    let mut matrix = BitMatrix::new(9, 9);
    for y in 1..8 {
        for x in 1..8 {
            matrix.set(x, y, true);
        }
    }
    for y in 2..7 {
        for x in 2..7 {
            matrix.set(x, y, false);
        }
    }
    for y in 3..6 {
        for x in 3..6 {
            matrix.set(x, y, true);
        }
    }

    assert!(find_white_regions(&matrix).contains(&(2, 2, 6, 6)));
}

#[test]
fn diagonal_neighbours_join_one_region() {
    let mut matrix = BitMatrix::new(5, 5);
    matrix.set(1, 1, true);
    matrix.set(2, 2, true);
    matrix.set(3, 1, true);
    assert_eq!(find_black_regions(&matrix), vec![(1, 1, 3, 2)]);
}

#[test]
fn empty_matrix_has_one_white_region_and_no_black_region() {
    let matrix = BitMatrix::new(4, 3);
    assert!(find_black_regions(&matrix).is_empty());
    assert_eq!(find_white_regions(&matrix), vec![(0, 0, 3, 2)]);
}

#[test]
fn union_find_merges_sets() {
    let mut uf = UnionFind::new(6);
    uf.union(1, 2);
    uf.union(3, 4);
    assert_eq!(uf.find(1), uf.find(2));
    assert_eq!(uf.find(3), uf.find(4));
    assert_ne!(uf.find(1), uf.find(3));
    uf.union(2, 4);
    assert_eq!(uf.find(1), uf.find(3));
    assert_eq!(uf.find(5), 5);
}

#[test]
fn bounding_boxes_sort_by_top_then_left() {
    let mut boxes = vec![(5, 3, 6, 4), (1, 3, 2, 3), (9, 0, 9, 0)];
    sort_bboxes(&mut boxes);
    assert_eq!(boxes, vec![(9, 0, 9, 0), (1, 3, 2, 3), (5, 3, 6, 4)]);
}

#[test]
fn region_boxes_stay_inside_the_grid() {
    let mut matrix = BitMatrix::new(7, 5);
    for (x, y) in [(0, 0), (6, 4), (6, 0), (3, 2), (4, 3), (0, 4)] {
        matrix.set(x, y, true);
    }
    for value in [true, false] {
        let regions = if value { find_black_regions(&matrix) } else { find_white_regions(&matrix) };
        assert!(!regions.is_empty());
        for (x0, y0, x1, y1) in regions {
            assert!(x0 <= x1 && x1 < 7 && y0 <= y1 && y1 < 5);
        }
    }
}

#[test]
fn union_puts_both_nodes_in_one_set_and_keeps_earlier_joins() {
    let mut uf = UnionFind::new(6);
    uf.union(0, 1);
    uf.union(2, 3);
    uf.union(1, 3);
    let root = uf.find(0);
    for node in [1, 2, 3] {
        assert_eq!(uf.find(node), root);
    }
    assert_ne!(uf.find(4), root);
    assert_ne!(uf.find(4), uf.find(5));
}
