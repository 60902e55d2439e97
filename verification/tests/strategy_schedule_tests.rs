use rust_qr::pipeline::strategy_schedule::{
    StrategyAction, StrategyEvent, StrategyStage, StrategyVariant, strategy_start, strategy_step,
    strategy_variants_for,
};

#[test]
fn variants_follow_the_window_and_the_median() {
    let gray = vec![100u8; 100 * 100];
    let variants = strategy_variants_for(&gray, 100, 100);
    assert_eq!(
        variants,
        vec![
            StrategyVariant::Sauvola { window: 31, k_tenths: 2 },
            StrategyVariant::Adaptive { window: 31 },
            StrategyVariant::Otsu,
            StrategyVariant::Threshold { level: 74 },
            StrategyVariant::Threshold { level: 126 },
            StrategyVariant::Sauvola { window: 31, k_tenths: 1 },
            StrategyVariant::Sauvola { window: 31, k_tenths: 3 },
            StrategyVariant::Sauvola { window: 63, k_tenths: 2 },
            StrategyVariant::Adaptive { window: 63 },
        ]
    );
}

#[test]
fn thresholds_are_clamped_to_grey_levels() {
    let dark = strategy_variants_for(&vec![10u8; 64], 8, 8);
    assert_eq!(dark[3], StrategyVariant::Threshold { level: 0 });
    assert_eq!(dark[4], StrategyVariant::Threshold { level: 36 });
    let light = strategy_variants_for(&vec![240u8; 64], 8, 8);
    assert_eq!(light[3], StrategyVariant::Threshold { level: 214 });
    assert_eq!(light[4], StrategyVariant::Threshold { level: 255 });
}

#[test]
fn no_large_window_variants_when_it_equals_the_window() {
    // A shorter side of 6120 gives the window 255, which the large window
    // cannot exceed.
    let variants = strategy_variants_for(&[], 6120, 6120);
    assert_eq!(variants.len(), 7);
    assert_eq!(variants[0], StrategyVariant::Sauvola { window: 255, k_tenths: 2 });
}

#[test]
fn a_decode_ends_the_pass_after_its_binarization() {
    let s = strategy_start(9);
    let (s, a) = strategy_step(&s, StrategyEvent::VariantDue { expired: false });
    assert_eq!(a, StrategyAction::Scan { index: 0 });
    let (s, a) = strategy_step(&s, StrategyEvent::FindersFound { count: 1 });
    assert_eq!(a, StrategyAction::CheckContour);
    let (s, a) = strategy_step(&s, StrategyEvent::ContourDue { expired: false });
    assert_eq!(a, StrategyAction::DetectContours { index: 0 });
    let (s, a) = strategy_step(&s, StrategyEvent::ContoursFound { count: 0 });
    assert_eq!(a, StrategyAction::CheckVariant);
    assert_eq!(s.index, 1);
    let (s, _) = strategy_step(&s, StrategyEvent::VariantDue { expired: false });
    let (s, a) = strategy_step(&s, StrategyEvent::FindersFound { count: 3 });
    assert_eq!(a, StrategyAction::DecodeGroups { index: 1 });
    let (s, a) = strategy_step(&s, StrategyEvent::Decoded { decoded_any: true, results_empty: false });
    assert_eq!(a, StrategyAction::Stop);
    assert!(s.have_results);
    assert_eq!(s.stage, StrategyStage::Done);
}

#[test]
fn a_failed_decode_still_tries_contours() {
    let s = strategy_start(2);
    let (s, _) = strategy_step(&s, StrategyEvent::VariantDue { expired: false });
    let (s, _) = strategy_step(&s, StrategyEvent::FindersFound { count: 4 });
    let (s, a) = strategy_step(&s, StrategyEvent::Decoded { decoded_any: false, results_empty: true });
    assert_eq!(a, StrategyAction::CheckContour);
    let (s, _) = strategy_step(&s, StrategyEvent::ContourDue { expired: false });
    let (s, a) = strategy_step(&s, StrategyEvent::ContoursFound { count: 2 });
    assert_eq!(a, StrategyAction::DecodeContours { index: 0 });
    let (s, a) = strategy_step(&s, StrategyEvent::ContourDecoded { results_empty: false });
    assert_eq!(a, StrategyAction::Stop);
    assert!(s.have_results);
}

#[test]
fn expiry_and_an_exhausted_plan_end_the_pass() {
    let s = strategy_start(2);
    let (t, a) = strategy_step(&s, StrategyEvent::VariantDue { expired: true });
    assert_eq!(a, StrategyAction::Stop);
    assert!(!t.have_results);
    let (s, _) = strategy_step(&s, StrategyEvent::VariantDue { expired: false });
    let (s, a) = strategy_step(&s, StrategyEvent::FindersFound { count: 500 });
    assert_eq!(a, StrategyAction::CheckContour);
    let (s, a) = strategy_step(&s, StrategyEvent::ContourDue { expired: true });
    assert_eq!(a, StrategyAction::CheckVariant);
    let (s, _) = strategy_step(&s, StrategyEvent::VariantDue { expired: false });
    let (s, _) = strategy_step(&s, StrategyEvent::FindersFound { count: 0 });
    let (s, _) = strategy_step(&s, StrategyEvent::ContourDue { expired: false });
    let (s, a) = strategy_step(&s, StrategyEvent::ContoursFound { count: 1 });
    assert_eq!(a, StrategyAction::CheckVariant);
    let (s, a) = strategy_step(&s, StrategyEvent::VariantDue { expired: false });
    assert_eq!(a, StrategyAction::Stop);
    assert_eq!(s.index, 2);
}
