use rust_qr::pipeline::routing::{
    ConfidenceLane, DENSE_MAX_GROUP_CANDIDATES, DEFAULT_MAX_REGIONS, LaneBudget, StrategyProfile,
    decode_top_k_limit, lane_budget_from_attempts, matrix_recovery_allowed,
    region_limit_for_strategy,
};

#[test]
fn dense_matrix_recovery_respects_the_existing_heavy_quota() {
    assert!(matrix_recovery_allowed(StrategyProfile::MultiQrHeavy, true));
    assert!(!matrix_recovery_allowed(
        StrategyProfile::MultiQrHeavy,
        false
    ));
    assert!(matrix_recovery_allowed(
        StrategyProfile::LowContrastRecovery,
        false
    ));
    assert!(matrix_recovery_allowed(StrategyProfile::FastSingle, false));
}

#[test]
fn dense_strategy_visits_each_retained_disjoint_region() {
    assert_eq!(
        region_limit_for_strategy(StrategyProfile::MultiQrHeavy, 50),
        50
    );
    assert_eq!(
        region_limit_for_strategy(StrategyProfile::MultiQrHeavy, 500),
        DENSE_MAX_GROUP_CANDIDATES
    );
    assert_eq!(
        region_limit_for_strategy(StrategyProfile::FastSingle, 50),
        DEFAULT_MAX_REGIONS
    );
}

#[test]
fn dense_region_limit_has_a_floor_of_eight() {
    assert_eq!(region_limit_for_strategy(StrategyProfile::MultiQrHeavy, 3), 8);
}

#[test]
fn top_k_is_six_or_fewer() {
    assert_eq!(decode_top_k_limit(0), 0);
    assert_eq!(decode_top_k_limit(4), 4);
    assert_eq!(decode_top_k_limit(6), 6);
    assert_eq!(decode_top_k_limit(100), 6);
}

fn lanes(b: LaneBudget) -> (usize, usize, usize) {
    (b.high, b.medium, b.low)
}

#[test]
fn lane_budget_splits_the_default_budget() {
    // 48 attempts: 24 high, 14 medium, 10 low before the strategy shift.
    assert_eq!(lanes(lane_budget_from_attempts(48, StrategyProfile::FastSingle)), (24, 14, 10));
    assert_eq!(lanes(lane_budget_from_attempts(48, StrategyProfile::MultiQrHeavy)), (23, 14, 11));
    assert_eq!(
        lanes(lane_budget_from_attempts(48, StrategyProfile::HighVersionPrecision)),
        (25, 14, 9)
    );
    assert_eq!(
        lanes(lane_budget_from_attempts(48, StrategyProfile::LowContrastRecovery)),
        (24, 13, 11)
    );
    assert_eq!(lanes(lane_budget_from_attempts(48, StrategyProfile::RotationHeavy)), (25, 15, 8));
}

#[test]
fn lane_budget_small_budgets() {
    assert_eq!(lanes(lane_budget_from_attempts(0, StrategyProfile::FastSingle)), (0, 0, 0));
    assert_eq!(lanes(lane_budget_from_attempts(1, StrategyProfile::RotationHeavy)), (1, 0, 0));
    assert_eq!(lanes(lane_budget_from_attempts(2, StrategyProfile::FastSingle)), (1, 0, 1));
    assert_eq!(lanes(lane_budget_from_attempts(3, StrategyProfile::FastSingle)), (1, 1, 1));
    assert_eq!(lanes(lane_budget_from_attempts(3, StrategyProfile::RotationHeavy)), (1, 2, 0));
}

#[test]
fn lane_budget_always_adds_up() {
    let strategies = [
        StrategyProfile::FastSingle,
        StrategyProfile::MultiQrHeavy,
        StrategyProfile::RotationHeavy,
        StrategyProfile::HighVersionPrecision,
        StrategyProfile::LowContrastRecovery,
    ];
    for n in 0..200usize {
        for s in strategies {
            let b = lane_budget_from_attempts(n, s);
            assert_eq!(b.high + b.medium + b.low, n);
        }
    }
}

#[test]
fn consuming_an_empty_lane_fails_without_change() {
    let mut budget = LaneBudget { high: 1, medium: 0, low: 2 };
    assert!(budget.consume(ConfidenceLane::High));
    assert!(!budget.consume(ConfidenceLane::High));
    assert!(!budget.consume(ConfidenceLane::Medium));
    assert!(budget.consume(ConfidenceLane::Low));
    assert_eq!(budget, LaneBudget { high: 0, medium: 0, low: 1 });
}

#[test]
fn strategy_names() {
    assert_eq!(StrategyProfile::FastSingle.as_str(), "fast_single");
    assert_eq!(StrategyProfile::MultiQrHeavy.as_str(), "multi_qr_heavy");
    assert_eq!(StrategyProfile::RotationHeavy.as_str(), "rotation_heavy");
    assert_eq!(StrategyProfile::HighVersionPrecision.as_str(), "high_version_precision");
    assert_eq!(StrategyProfile::LowContrastRecovery.as_str(), "low_contrast_recovery");
}

#[test]
fn lane_budget_splits_any_budget_in_full() {
    for n in [2usize, 3, 1_000_000, 3_495_263, 10_000_000_007, usize::MAX] {
        let b = lane_budget_from_attempts(n, StrategyProfile::RotationHeavy);
        assert_eq!(b.high + b.medium + b.low, n);
        assert!(b.high >= 1);
    }
    assert_eq!(
        lanes(lane_budget_from_attempts(10_000_000, StrategyProfile::FastSingle)),
        (5_000_000, 3_000_000, 2_000_000)
    );
}
