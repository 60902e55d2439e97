use rust_qr::pipeline::ranked_decode_plan::{
    RankedDecodeAction, RankedDecodeEvent, RankedStage, considered_groups, decode_budgets,
    ranked_decode_start, ranked_decode_step, region_caps, region_schedule,
};
use rust_qr::pipeline::routing::{ConfidenceLane, LaneBudget, StrategyProfile};

#[test]
fn considered_groups_depend_on_scene_density() {
    assert_eq!(considered_groups(13, 200), 128);
    assert_eq!(considered_groups(12, 200), 40);
    assert_eq!(considered_groups(30, 7), 7);
}

#[test]
fn budgets_never_exceed_the_callers_limit() {
    assert_eq!(decode_budgets(None, StrategyProfile::FastSingle), Some((48, 24)));
    assert_eq!(decode_budgets(Some(10), StrategyProfile::FastSingle), Some((10, 10)));
    assert_eq!(decode_budgets(Some(0), StrategyProfile::MultiQrHeavy), None);
    assert_eq!(decode_budgets(None, StrategyProfile::MultiQrHeavy), Some((256, 256)));
    assert_eq!(decode_budgets(Some(100), StrategyProfile::MultiQrHeavy), Some((100, 100)));
    assert_eq!(decode_budgets(Some(1000), StrategyProfile::MultiQrHeavy), Some((256, 256)));
}

#[test]
fn region_caps_follow_the_strategy() {
    assert_eq!(region_caps(StrategyProfile::MultiQrHeavy, 6, 1, 100), (64, 100));
    assert_eq!(region_caps(StrategyProfile::MultiQrHeavy, 6, 3, 100), (6, 48));
    assert_eq!(region_caps(StrategyProfile::HighVersionPrecision, 6, 3, 10), (4, 2));
    assert_eq!(region_caps(StrategyProfile::LowContrastRecovery, 2, 3, 0), (2, 3));
    assert_eq!(region_caps(StrategyProfile::FastSingle, 6, 2, 5), (4, 3));
}

#[test]
fn region_schedules_go_region_by_region_or_breadth_first() {
    assert_eq!(
        region_schedule(StrategyProfile::FastSingle, 2, 3),
        vec![(0, 0), (1, 0), (2, 0), (0, 1), (1, 1), (2, 1)]
    );
    let dense = region_schedule(StrategyProfile::MultiQrHeavy, 40, 2);
    assert_eq!(dense.len(), 80);
    assert_eq!(dense[0], (0, 0));
    assert_eq!(dense[39], (0, 39));
    assert_eq!(dense[40], (1, 0));
    let few = region_schedule(StrategyProfile::MultiQrHeavy, 39, 2);
    assert_eq!(few[1], (1, 0));
}

#[test]
fn turns_take_lanes_and_stop_when_the_budget_is_spent() {
    let lanes = LaneBudget { high: 1, medium: 1, low: 0 };
    let s = ranked_decode_start(StrategyProfile::FastSingle, (2, 2), lanes);
    let (s, a) = ranked_decode_step(
        &s,
        RankedDecodeEvent::FirstDue { lane: ConfidenceLane::High, expand: true },
    );
    assert_eq!(a, RankedDecodeAction::DecodeFirst { allow_heavy: true, allow_matrix_recovery: true });
    let (s, a) = ranked_decode_step(
        &s,
        RankedDecodeEvent::FirstDecoded { accepted: true, low_confidence: false },
    );
    assert_eq!(a, RankedDecodeAction::PlanRegions);
    let (s, a) = ranked_decode_step(&s, RankedDecodeEvent::RegionsPlanned { turns: 3 });
    assert_eq!(a, RankedDecodeAction::CheckTurn { turn: 0 });
    let (s, a) = ranked_decode_step(
        &s,
        RankedDecodeEvent::TurnDue { present: true, overlaps: false, lane: ConfidenceLane::Low },
    );
    assert_eq!(a, RankedDecodeAction::CheckTurn { turn: 1 });
    assert_eq!(s.budget_skips, 1);
    let (s, a) = ranked_decode_step(
        &s,
        RankedDecodeEvent::TurnDue { present: true, overlaps: false, lane: ConfidenceLane::Medium },
    );
    assert_eq!(
        a,
        RankedDecodeAction::DecodeTurn { turn: 1, allow_heavy: true, allow_matrix_recovery: true }
    );
    let (s, a) = ranked_decode_step(&s, RankedDecodeEvent::TurnDecoded);
    assert_eq!(a, RankedDecodeAction::Stop);
    assert_eq!(s.budget_skips, 2);
    assert_eq!(s.used_attempts, 2);
    assert_eq!(s.stage, RankedStage::Done);
}

#[test]
fn a_confident_single_decode_ends_the_work() {
    let lanes = LaneBudget { high: 24, medium: 14, low: 10 };
    let s = ranked_decode_start(StrategyProfile::FastSingle, (48, 24), lanes);
    let (s, _) = ranked_decode_step(
        &s,
        RankedDecodeEvent::FirstDue { lane: ConfidenceLane::High, expand: false },
    );
    let (s, a) = ranked_decode_step(
        &s,
        RankedDecodeEvent::FirstDecoded { accepted: true, low_confidence: false },
    );
    assert_eq!(a, RankedDecodeAction::Stop);
    assert_eq!(s.used_attempts, 1);
    // A low-confidence decode asks for more.
    let s = ranked_decode_start(StrategyProfile::FastSingle, (48, 24), lanes);
    let (s, _) = ranked_decode_step(
        &s,
        RankedDecodeEvent::FirstDue { lane: ConfidenceLane::High, expand: false },
    );
    let (_, a) = ranked_decode_step(
        &s,
        RankedDecodeEvent::FirstDecoded { accepted: true, low_confidence: true },
    );
    assert_eq!(a, RankedDecodeAction::PlanRegions);
}

#[test]
fn the_dense_strategy_limits_heavy_recovery_to_the_first_attempts() {
    let lanes = LaneBudget { high: 100, medium: 100, low: 56 };
    let s = ranked_decode_start(StrategyProfile::MultiQrHeavy, (256, 256), lanes);
    let (s, _) = ranked_decode_step(
        &s,
        RankedDecodeEvent::FirstDue { lane: ConfidenceLane::High, expand: false },
    );
    let (s, a) = ranked_decode_step(
        &s,
        RankedDecodeEvent::FirstDecoded { accepted: false, low_confidence: false },
    );
    assert_eq!(a, RankedDecodeAction::PlanRegions);
    let (s, _) = ranked_decode_step(&s, RankedDecodeEvent::RegionsPlanned { turns: 4 });
    let turn = RankedDecodeEvent::TurnDue { present: true, overlaps: false, lane: ConfidenceLane::High };
    let (s, a) = ranked_decode_step(&s, turn);
    assert_eq!(
        a,
        RankedDecodeAction::DecodeTurn { turn: 0, allow_heavy: true, allow_matrix_recovery: true }
    );
    let (s, _) = ranked_decode_step(&s, RankedDecodeEvent::TurnDecoded);
    let (_, a) = ranked_decode_step(&s, turn);
    assert_eq!(
        a,
        RankedDecodeAction::DecodeTurn { turn: 1, allow_heavy: false, allow_matrix_recovery: false }
    );
}
