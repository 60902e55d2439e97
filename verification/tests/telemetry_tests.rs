use rust_qr::telemetry::TelemetryCounters;

#[test]
fn merging_keeps_high_water_marks_and_adds_attempts() {
    let mut first = TelemetryCounters::default();
    first.finder_patterns_found = 5;
    first.groups_found = 3;
    first.decode_attempts = 4;
    first.format_bch_distance_hist = [1, 0, 2, 0];
    first.rerank_enabled = false;
    let mut second = TelemetryCounters::default();
    second.finder_patterns_found = 9;
    second.groups_found = 2;
    second.transforms_built = 7;
    second.decode_attempts = 6;
    second.format_bch_distance_hist = [0, 1, 1, 5];
    second.rerank_enabled = true;
    second.strategy_profile = "dense".to_string();

    first.merge_high_water_from(&second);
    assert_eq!(first.finder_patterns_found, 5);
    assert_eq!(first.groups_found, 3);
    assert_eq!(first.transforms_built, 7);
    assert_eq!(first.decode_attempts, 10);
    assert_eq!(first.format_bch_distance_hist, [1, 1, 3, 5]);
    assert!(first.rerank_enabled);
    assert_eq!(first.strategy_profile, "dense");

    let mut named = TelemetryCounters::default();
    named.strategy_profile = "standard".to_string();
    named.merge_high_water_from(&second);
    assert_eq!(named.strategy_profile, "standard");
}

#[test]
fn default_counters_are_cleared() {
    let c = TelemetryCounters::default();
    assert_eq!(c.decode_attempts, 0);
    assert_eq!(c.candidate_score_buckets, [0; 4]);
    assert!(!c.binarize_ok);
    assert!(c.strategy_profile.is_empty());
}
