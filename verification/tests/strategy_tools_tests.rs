use rust_qr::strategy::{
    BinarizationPolicy, auto_window, binarize_with_policy, grayscale_contrast_span,
    histogram_median, initial_policy, phase9_binarization_sequence,
};
use rust_qr::tools::{
    GrayStats, binarize, binarize_otsu, grayscale_stats, normalize_payload,
    payload_from_label_content, score_payloads, to_grayscale, LabelLine, expected_qr_count,
};

#[test]
fn auto_window_is_odd_and_at_least_31() {
    assert_eq!(auto_window(100, 100), 31);
    assert_eq!(auto_window(2400, 1200), 51);
    assert_eq!(auto_window(1920, 1080), 45);
    assert_eq!(auto_window(2400, 2400), 101);
    assert_eq!(auto_window(2424, 2424), 101);
}

#[test]
fn median_is_the_first_level_reaching_half() {
    assert_eq!(histogram_median(&[10, 20, 30, 40]), 20);
    assert_eq!(histogram_median(&[5, 5, 200]), 5);
    assert_eq!(histogram_median(&[]), 0);
    assert_eq!(histogram_median(&[250]), 0);
}

#[test]
fn policy_order_starts_with_the_initial_policy() {
    assert_eq!(initial_policy(640, 480), BinarizationPolicy::Otsu);
    assert_eq!(initial_policy(800, 10), BinarizationPolicy::Adaptive31);
    assert_eq!(
        phase9_binarization_sequence(100, 100),
        vec![BinarizationPolicy::Otsu, BinarizationPolicy::Adaptive31, BinarizationPolicy::Adaptive21]
    );
    assert_eq!(
        phase9_binarization_sequence(10, 900),
        vec![BinarizationPolicy::Adaptive31, BinarizationPolicy::Otsu, BinarizationPolicy::Adaptive21]
    );
}

#[test]
fn contrast_span_is_max_minus_min() {
    assert_eq!(grayscale_contrast_span(&[]), 0);
    assert_eq!(grayscale_contrast_span(&[9]), 0);
    assert_eq!(grayscale_contrast_span(&[40, 3, 250, 17]), 247);
}

#[test]
fn policies_binarize_like_their_binarizers() {
    let mut gray = vec![50u8; 50];
    gray.extend(vec![200u8; 50]);
    let otsu = binarize_with_policy(&gray, 10, 10, BinarizationPolicy::Otsu);
    assert!(otsu.get(0, 0) && !otsu.get(0, 9));
    let tool = binarize(&gray, 10, 10);
    let direct = binarize_otsu(&gray, 10, 10);
    assert_eq!(tool.as_bytes(), direct.as_bytes());
    let adaptive = binarize_with_policy(&gray, 10, 10, BinarizationPolicy::Adaptive21);
    assert_eq!((adaptive.width(), adaptive.height()), (10, 10));
}

#[test]
fn grayscale_statistics() {
    assert_eq!(grayscale_stats(&[]), GrayStats { min: 255, max: 0, avg: 0 });
    assert_eq!(grayscale_stats(&[4, 9, 2, 8]), GrayStats { min: 2, max: 9, avg: 5 });
}

#[test]
fn tool_grayscale_matches_library_conversion() {
    assert_eq!(to_grayscale(&[255, 0, 0, 0, 0, 255], 2, 1), vec![75, 28]);
}

#[test]
fn payload_normalization_trims_and_converts_line_endings() {
    assert_eq!(
        normalize_payload("  BEGIN:VEVENT\r\nSUMMARY: Test\r\nEND:VEVENT\r\n  "),
        "BEGIN:VEVENT\nSUMMARY: Test\nEND:VEVENT"
    );
    assert_eq!(normalize_payload(" \r\n\t"), "");
    assert_ne!(normalize_payload("ALPHA"), normalize_payload("alpha"));
    assert_eq!(normalize_payload("a\r\r\nb"), "a\r\nb");
}

fn rate(matches: usize, expected: usize) -> f64 {
    if expected == 0 { 0.0 } else { matches as f64 / expected as f64 }
}

#[test]
fn payload_scoring_is_exact_normalized_and_one_to_one() {
    let expected = vec!["alpha".to_string(), "alpha".to_string(), "a\r\nb".to_string()];
    let predicted = vec![
        "alpha".to_string(),
        " alpha ".to_string(),
        "alpha".to_string(),
        "a\nb".to_string(),
        "ALPHA".to_string(),
    ];
    let score = score_payloads(&expected, &predicted);
    assert_eq!((score.exact_matches, score.expected, score.predicted), (3, 3, 5));
    assert_eq!(rate(score.exact_matches, score.expected), 1.0);
    assert_ne!(normalize_payload("ALPHA"), normalize_payload("alpha"));
}

#[test]
fn wrong_payload_never_counts_as_an_exact_match() {
    let score = score_payloads(&["expected".to_string()], &["wrong".to_string()]);
    assert_eq!(score.exact_matches, 0);
    assert_eq!(rate(score.exact_matches, score.expected), 0.0);
}

#[test]
fn payload_matching_is_symmetric_and_bounded() {
    let a = vec!["x".to_string(), "x".to_string(), "y".to_string(), "z".to_string()];
    let b = vec![" x".to_string(), "y".to_string(), "y".to_string()];
    let ab = score_payloads(&a, &b).exact_matches;
    let ba = score_payloads(&b, &a).exact_matches;
    assert_eq!(ab, 2);
    assert_eq!(ab, ba);
    assert_eq!(score_payloads(&[], &b).exact_matches, 0);
}

#[test]
fn payload_label_content_keeps_lines_and_refuses_empty() {
    assert_eq!(
        payload_from_label_content("  BEGIN:VEVENT\r\nSUMMARY: Test\r\nEND:VEVENT\r\n  "),
        Ok("BEGIN:VEVENT\nSUMMARY: Test\nEND:VEVENT".to_string())
    );
    assert_eq!(
        payload_from_label_content(" \r\n\t"),
        Err("payload label is empty".to_string())
    );
}

#[test]
fn label_count_after_sets_marker_counts_symbol_lines() {
    let lines = [LabelLine::Sets, LabelLine::Numbers(8), LabelLine::Numbers(8)];
    assert_eq!(expected_qr_count(&lines), 2);
    // lines before the marker do not count once it is there
    let lines = [LabelLine::Numbers(8), LabelLine::Sets, LabelLine::Numbers(9), LabelLine::Numbers(2)];
    assert_eq!(expected_qr_count(&lines), 1);
}

#[test]
fn label_count_legacy_corners_make_symbols_in_fours() {
    let lines = [LabelLine::Numbers(2); 8];
    assert_eq!(expected_qr_count(&lines), 2);
    let lines = [LabelLine::Numbers(2); 7];
    assert_eq!(expected_qr_count(&lines), 1);
    let mixed = [LabelLine::Numbers(2), LabelLine::Numbers(8), LabelLine::Numbers(2), LabelLine::Numbers(2), LabelLine::Numbers(2)];
    assert_eq!(expected_qr_count(&mixed), 1);
}

#[test]
fn label_count_without_numbers_is_zero() {
    assert_eq!(expected_qr_count(&[]), 0);
    assert_eq!(expected_qr_count(&[LabelLine::Sets]), 0);
    assert_eq!(expected_qr_count(&[LabelLine::Numbers(3)]), 0);
}

#[test]
fn normalize_trims_unicode_white_space() {
    assert_eq!(normalize_payload("\u{3000}abc\u{00A0}"), "abc");
    assert_eq!(normalize_payload("\u{2003}x y\u{85}"), "x y");
    // A zero-width space is not White_Space, so it stays.
    assert_eq!(normalize_payload("\u{200B}a"), "\u{200B}a");
}
