use rust_qr::Detector;
use rust_qr::detector::contour::black_pixels_in_bbox;
use rust_qr::detector::finder::FinderDetector;
use rust_qr::detector::proposal::in_bounds;
use rust_qr::models::point::PointI;
use rust_qr::pipeline::hypothesis_search::sort_pair;
use rust_qr::pipeline::proposal_views::{
    adaptive_mean_binarize, estimate_candidate_capacity, integral_sq_u8, integral_u8,
    range_count, rect_sum, suppress_glare, view_slot,
};
use rust_qr::telemetry::StageCounters;
use rust_qr::types::ProposalView;
use rust_qr::utils::grayscale::{
    luma_row_into, rgb_to_grayscale, rgb_to_grayscale_with_buffer, rgba_to_grayscale,
    rgba_to_grayscale_with_buffer,
};
use rust_qr::utils::memory_pool::{AllocationStats, BufferPool};
use rust_qr::BitMatrix;

#[test]
fn buffer_pool_grows_and_keeps_capacity() {
    let mut pool = BufferPool::new();
    assert_eq!(pool.grayscale_capacity(), 1920 * 1080);
    assert_eq!(pool.get_grayscale_buffer(100).len(), 100);
    let mut small = BufferPool::with_capacity(10);
    let buf = small.get_grayscale_buffer(50);
    assert_eq!(buf.len(), 50);
    assert!(buf.iter().all(|&b| b == 0));
    buf[3] = 9;
    assert_eq!(small.grayscale_capacity(), 50);
    assert_eq!(small.get_grayscale_buffer(5)[3], 9);
    small.ensure_grayscale_capacity(20);
    assert_eq!(small.grayscale_capacity(), 50);
    small.ensure_grayscale_capacity(80);
    assert_eq!(small.grayscale_capacity(), 80);
    small.clear();
    assert_eq!(small.grayscale_capacity(), 80);
    assert_eq!(small.get_grayscale_buffer(2), &[0, 0]);
}

#[test]
fn allocation_stats_count_events() {
    let mut stats = AllocationStats::new();
    stats.record_grayscale_reuse(100);
    stats.record_grayscale_reuse(28);
    stats.record_grayscale_allocation();
    assert_eq!(stats.grayscale_reuses, 2);
    assert_eq!(stats.total_bytes_reused, 128);
    assert_eq!(stats.grayscale_allocations, 1);
}

#[test]
fn detector_pool_is_optional() {
    let mut plain = Detector::new();
    plain.clear_pool();
    let mut pooled = Detector::with_pool_capacity(64);
    pooled.clear_pool();
    let _ = Detector::with_pool();
    let _ = Detector::default();
}

#[test]
fn grayscale_conversion_uses_integer_weights() {
    let white = vec![255, 255, 255];
    assert!(rgb_to_grayscale(&white, 1, 1)[0] >= 254);
    assert_eq!(rgb_to_grayscale(&[0, 0, 0], 1, 1), vec![0]);
    let red = rgb_to_grayscale(&[255, 0, 0], 1, 1);
    assert!(red[0] > 0 && red[0] < 255);
    assert!(rgb_to_grayscale(&[0, 255, 0], 1, 1)[0] > 100);
    let img = vec![255, 0, 0, 0, 255, 0, 0, 0, 255, 255, 255, 255];
    assert_eq!(rgb_to_grayscale(&img, 2, 2), vec![75, 149, 28, 254]);
    assert_eq!(rgba_to_grayscale(&[255, 128, 64, 255], 1, 1), vec![157]);
}

#[test]
fn grayscale_into_buffers_leaves_the_tail() {
    let mut out = [7u8; 4];
    assert_eq!(rgb_to_grayscale_with_buffer(&[255, 255, 255, 0, 0, 0], 2, 1, &mut out), 2);
    assert_eq!(out, [254, 0, 7, 7]);
    let mut out = [7u8; 2];
    assert_eq!(rgba_to_grayscale_with_buffer(&[0, 255, 0, 9], 1, 1, &mut out), 1);
    assert_eq!(out, [149, 7]);
    let mut row = [0u8; 2];
    luma_row_into(&[0, 0, 0, 0, 0, 0, 255, 0, 0, 0, 0, 255], 2, 1, 3, &mut row);
    assert_eq!(row, [75, 28]);
}

#[test]
fn scan_cells_and_capacity() {
    assert_eq!(range_count(2, 2, 8), 0);
    assert_eq!(range_count(2, 3, 8), 1);
    assert_eq!(range_count(2, 18, 8), 2);
    assert_eq!(range_count(2, 19, 8), 3);
    assert_eq!(range_count(0, 10, 0), 0);
    assert_eq!(estimate_candidate_capacity(4, 100), 0);
    // cell 8: columns 2, 10, ..., 90 and rows 2, 10, 18, 26
    assert_eq!(estimate_candidate_capacity(100, 30), 12 * 4);
}

#[test]
fn glare_is_compressed_above_220() {
    assert_eq!(suppress_glare(&[0, 220, 221, 224, 255]), vec![0, 220, 220, 221, 228]);
}

#[test]
fn view_slots_and_names() {
    assert_eq!(view_slot(ProposalView::Otsu), 0);
    assert_eq!(view_slot(ProposalView::Adaptive), 1);
    assert_eq!(view_slot(ProposalView::Sauvola), 2);
    assert_eq!(view_slot(ProposalView::GlareSuppressed), 3);
    assert_eq!(ProposalView::Otsu.as_str(), "otsu");
    assert_eq!(ProposalView::GlareSuppressed.as_str(), "glare_suppressed");
}

#[test]
fn padded_integral_tables_sum_rectangles() {
    let gray = vec![1u8, 2, 3, 4, 5, 6];
    let table = integral_u8(&gray, 3, 2);
    assert_eq!(table, vec![0, 0, 0, 0, 0, 1, 3, 6, 0, 5, 12, 21]);
    assert_eq!(rect_sum(&table, 3, 1, 0, 3, 2), 2 + 3 + 5 + 6);
    let sq = integral_sq_u8(&gray, 3, 2);
    assert_eq!(rect_sum(&sq, 3, 0, 1, 2, 2), 16 + 25);
}

#[test]
fn local_mean_binarization_marks_dark_pixels() {
    let mut gray = vec![200u8; 100];
    gray[55] = 100;
    gray[0] = 0;
    let table = integral_u8(&gray, 10, 10);
    let bits = adaptive_mean_binarize(&gray, 10, 10, &table);
    assert_eq!(bits.len(), 100);
    assert_eq!(bits[55], 1);
    assert_eq!(bits[0], 1);
    assert_eq!(bits[99], 0);
}

#[test]
fn row_edges_are_sampled_every_fourth_column() {
    let mut m = BitMatrix::new(16, 2);
    assert!(!FinderDetector::has_significant_edges(&m, 0, 16));
    m.set(4, 0, true);
    // samples 0, 4, 8, 12: light, dark, light, light -> two changes
    assert!(FinderDetector::has_significant_edges(&m, 0, 16));
    // a change at a column that is not sampled does not count
    m.set(5, 1, true);
    assert!(!FinderDetector::has_significant_edges(&m, 1, 16));
    let mut c = BitMatrix::new(2, 16);
    c.set(1, 8, true);
    assert!(FinderDetector::has_significant_edges_column(&c, 1, 16));
    assert!(!FinderDetector::has_significant_edges_column(&c, 1, 0));
}

#[test]
fn dark_cells_in_a_box_are_counted() {
    let mut m = BitMatrix::new(6, 6);
    m.set(1, 1, true);
    m.set(2, 3, true);
    m.set(5, 5, true);
    assert_eq!(black_pixels_in_bbox(&m, 0, 0, 5, 5), 3);
    assert_eq!(black_pixels_in_bbox(&m, 1, 1, 2, 3), 2);
    assert_eq!(black_pixels_in_bbox(&m, 3, 0, 2, 5), 0);
    assert_eq!(black_pixels_in_bbox(&m, 4, 4, 100, 100), 1);
}

#[test]
fn signed_positions_inside_the_grid() {
    let m = BitMatrix::new(3, 2);
    assert!(in_bounds(&m, 0, 0));
    assert!(in_bounds(&m, 2, 1));
    assert!(!in_bounds(&m, 3, 1));
    assert!(!in_bounds(&m, -1, 0));
    assert!(!in_bounds(&m, 0, 2));
}

#[test]
fn pairs_are_ordered() {
    assert_eq!(sort_pair(3, 1), (1, 3));
    assert_eq!(sort_pair(1, 3), (1, 3));
    assert_eq!(sort_pair(2, 2), (2, 2));
}

#[test]
fn counters_start_at_zero() {
    let c = StageCounters::zero();
    assert_eq!(c, StageCounters { proposals: 0, hypotheses: 0, refined: 0, decode_candidates: 0, accepted: 0 });
}

#[test]
fn integer_point_holds_its_coordinates() {
    let p = PointI::new(-3, 4);
    assert_eq!((p.x, p.y), (-3, 4));
}

#[test]
fn quick_ratio_check_screens_run_lengths() {
    assert!(FinderDetector::quick_ratio_check(&[2, 2, 6, 2, 2]));
    assert!(FinderDetector::quick_ratio_check(&[10, 10, 30, 10, 10]));
    assert!(!FinderDetector::quick_ratio_check(&[1, 1, 3, 1, 1]));
    assert!(!FinderDetector::quick_ratio_check(&[2, 2, 2, 2, 2]));
    assert!(!FinderDetector::quick_ratio_check(&[2, 2, 11, 2, 2]));
    assert!(!FinderDetector::quick_ratio_check(&[300, 300, 900, 300, 300]));
    assert!(!FinderDetector::quick_ratio_check(&[2, 9, 6, 2, 2]));
}

#[test]
fn test_quick_ratio_check() {
    let valid = vec![6, 6, 18, 6, 6];
    assert!(FinderDetector::quick_ratio_check(&valid));

    let bad_small_center = vec![2, 2, 2, 2, 2];
    assert!(!FinderDetector::quick_ratio_check(&bad_small_center));

    let bad_whites = vec![4, 1, 12, 8, 4];
    assert!(!FinderDetector::quick_ratio_check(&bad_whites));

    let bad_center = vec![6, 6, 6, 6, 6];
    assert!(!FinderDetector::quick_ratio_check(&bad_center));
}

#[test]
fn test_buffer_pool_basic() {
    let mut pool = BufferPool::new();

    let buf1 = pool.get_grayscale_buffer(100);
    assert_eq!(buf1.len(), 100);

    let buf2 = pool.get_grayscale_buffer(1000);
    assert_eq!(buf2.len(), 1000);

    assert!(pool.grayscale_capacity() >= 1920 * 1080);
}

#[test]
fn test_buffer_pool_growth() {
    let mut pool = BufferPool::with_capacity(100);

    let buf = pool.get_grayscale_buffer(500);
    assert_eq!(buf.len(), 500);
    assert!(pool.grayscale_capacity() >= 500);
}

#[test]
fn test_rgb_to_grayscale() {
    let white = vec![255, 255, 255];
    let gray = rgb_to_grayscale(&white, 1, 1);
    assert!(gray[0] >= 254);

    let black = vec![0, 0, 0];
    let gray = rgb_to_grayscale(&black, 1, 1);
    assert_eq!(gray[0], 0);

    let red = vec![255, 0, 0];
    let gray = rgb_to_grayscale(&red, 1, 1);
    assert!(gray[0] < 255);
    assert!(gray[0] > 0);

    let green = vec![0, 255, 0];
    let gray = rgb_to_grayscale(&green, 1, 1);
    assert!(gray[0] > 100);

    let img = vec![255, 0, 0, 0, 255, 0, 0, 0, 255, 255, 255, 255];
    let gray = rgb_to_grayscale(&img, 2, 2);
    assert_eq!(gray.len(), 4);
}

#[test]
fn test_rgba_to_grayscale() {
    let rgba = vec![255, 128, 64, 255];
    let gray = rgba_to_grayscale(&rgba, 1, 1);
    assert_eq!(gray.len(), 1);
}
