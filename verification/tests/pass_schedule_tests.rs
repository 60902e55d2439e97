use rust_qr::pipeline::pass_schedule::{
    BudgetAction, BudgetEvent, BudgetState, budget_start, budget_step,
};
use rust_qr::strategy::BinarizationPolicy;

fn started(width: usize, height: usize, limit: usize) -> BudgetState {
    let s = budget_start(width, height, limit);
    let (s, a) = budget_step(&s, BudgetEvent::RequestDue { expired: false, overexposed: false });
    assert_eq!(a, BudgetAction::StartPass);
    s
}

#[test]
fn a_request_expired_before_its_first_pass_touches_no_counter() {
    let s = budget_start(64, 64, 10);
    let (t, a) = budget_step(&s, BudgetEvent::RequestDue { expired: true, overexposed: false });
    assert_eq!(a, BudgetAction::Stop);
    assert!(t.stopped && !t.decoded);
    assert_eq!(t.counters, s.counters);
    assert_eq!(t.counters.roi_norm_skipped, 0);
    assert_eq!(t.counters.finder_patterns_found, 0);
    assert_eq!(t.decode_attempts, 0);
}

#[test]
fn overexposed_images_try_the_brightness_stage_first() {
    let s = budget_start(64, 64, 10);
    let (s, a) = budget_step(&s, BudgetEvent::RequestDue { expired: false, overexposed: true });
    assert_eq!(a, BudgetAction::BrightnessDetect { max_attempts: 10 });
    let (miss, a) = budget_step(&s, BudgetEvent::BrightnessDone { attempts: 4, success: false });
    assert_eq!(a, BudgetAction::StartPass);
    assert_eq!(miss.decode_attempts, 4);
    let (miss, a) = budget_step(&miss, BudgetEvent::PassDue { expired: false });
    assert_eq!(a, BudgetAction::Binarize { policy: BinarizationPolicy::Otsu });
    assert_eq!(miss.counters.otsu_to_adaptive31, 0);
    let (hit, a) = budget_step(&s, BudgetEvent::BrightnessDone { attempts: 2, success: true });
    assert_eq!(a, BudgetAction::Stop);
    assert!(hit.decoded);
    assert_eq!(hit.decode_attempts, 2);
}

#[test]
fn small_image_passes_follow_otsu_then_adaptive() {
    let s = started(100, 100, 10);
    let (s, a) = budget_step(&s, BudgetEvent::PassDue { expired: false });
    assert_eq!(a, BudgetAction::Binarize { policy: BinarizationPolicy::Otsu });
    let (s, a) = budget_step(&s, BudgetEvent::Binarized { expired: false });
    assert_eq!(a, BudgetAction::FindPatterns);
    let (s, a) = budget_step(&s, BudgetEvent::FindersFound { count: 3 });
    assert_eq!(a, BudgetAction::DecodeGroups { max_attempts: 10 });
    let (s, a) = budget_step(&s, BudgetEvent::GroupsDecoded { attempts: 4, success: false });
    assert_eq!(a, BudgetAction::StartPass);
    assert_eq!(s.decode_attempts, 4);
    let (s, a) = budget_step(&s, BudgetEvent::PassDue { expired: false });
    assert_eq!(a, BudgetAction::Binarize { policy: BinarizationPolicy::Adaptive31 });
    assert_eq!(s.counters.otsu_to_adaptive31, 1);
    let (s, _) = budget_step(&s, BudgetEvent::Binarized { expired: false });
    let (s, a) = budget_step(&s, BudgetEvent::FindersFound { count: 2 });
    assert_eq!(a, BudgetAction::TwoFinderFallback { max_attempts: 6 });
    let (s, a) = budget_step(&s, BudgetEvent::TwoFinderDecoded { attempts: 1, success: true });
    assert_eq!(a, BudgetAction::Stop);
    assert!(s.decoded && s.stopped);
    assert_eq!(s.counters.two_finder_attempts, 1);
    assert_eq!(s.counters.two_finder_successes, 1);
    assert_eq!(s.counters.fallback_successes, 1);
    assert_eq!(s.decode_attempts, 5);
}

#[test]
fn expiry_and_exhausted_budget_stop_the_schedule() {
    let s = started(1000, 100, 0);
    let (s, a) = budget_step(&s, BudgetEvent::PassDue { expired: false });
    assert_eq!(a, BudgetAction::Stop);
    assert_eq!(s.counters.budget_skips, 1);
    assert_eq!(s.counters.roi_norm_skipped, 1);
    let (again, a) = budget_step(&s, BudgetEvent::FindersFound { count: 5 });
    assert_eq!(a, BudgetAction::Stop);
    assert_eq!(again, s);

    let s = started(1000, 100, 8);
    let (s, a) = budget_step(&s, BudgetEvent::PassDue { expired: false });
    assert_eq!(a, BudgetAction::Binarize { policy: BinarizationPolicy::Adaptive31 });
    let (s, a) = budget_step(&s, BudgetEvent::Binarized { expired: true });
    assert_eq!(a, BudgetAction::Stop);
    assert!(s.stopped && !s.decoded);
    assert_eq!(s.counters.roi_norm_skipped, 1);
    assert_eq!(s.counters.budget_skips, 0);
}

#[test]
fn too_many_finders_go_to_contours_and_attempts_stay_within_the_limit() {
    let s = started(10, 10, 3);
    let (s, _) = budget_step(&s, BudgetEvent::PassDue { expired: false });
    let (s, _) = budget_step(&s, BudgetEvent::Binarized { expired: false });
    let (s, a) = budget_step(&s, BudgetEvent::FindersFound { count: 400 });
    assert_eq!(a, BudgetAction::CheckContour);
    assert_eq!(s.counters.finder_patterns_found, 400);
    let (s, a) = budget_step(&s, BudgetEvent::ContourDue { expired: false });
    assert_eq!(a, BudgetAction::DetectContours);
    let (s, a) = budget_step(&s, BudgetEvent::ContoursFound { count: 4 });
    assert_eq!(a, BudgetAction::DecodeContourGroups { max_attempts: 3 });
    let (s, a) = budget_step(&s, BudgetEvent::ContourDecoded { attempts: 9, success: false });
    assert_eq!(a, BudgetAction::StartPass);
    assert_eq!(s.decode_attempts, 3);
    let (s, a) = budget_step(&s, BudgetEvent::PassDue { expired: false });
    assert_eq!(a, BudgetAction::Stop);
    assert_eq!(s.counters.budget_skips, 1);
}

#[test]
fn without_finder_patterns_the_passes_end_in_the_region_check() {
    let mut s = started(10, 10, 100);
    let mut policies = Vec::new();
    let mut last = BudgetAction::StartPass;
    while last == BudgetAction::StartPass {
        let (next, a) = budget_step(&s, BudgetEvent::PassDue { expired: false });
        match a {
            BudgetAction::Binarize { policy } => policies.push(policy),
            other => panic!("unexpected {:?}", other),
        }
        let (next, _) = budget_step(&next, BudgetEvent::Binarized { expired: false });
        let (next, a) = budget_step(&next, BudgetEvent::FindersFound { count: 0 });
        s = next;
        last = a;
    }
    assert_eq!(
        policies,
        vec![BinarizationPolicy::Otsu, BinarizationPolicy::Adaptive31, BinarizationPolicy::Adaptive21]
    );
    assert_eq!(last, BudgetAction::CheckRoi);
    assert_eq!(s.counters.adaptive31_to_adaptive21, 1);
    let (s, a) = budget_step(
        &s,
        BudgetEvent::RoiDue { expired: false, contrast_span: 40, region_found: false },
    );
    assert_eq!(a, BudgetAction::Stop);
    assert!(s.stopped && !s.decoded);
    assert_eq!(s.counters.roi_norm_skipped, 1);
}

#[test]
fn contour_fallback_then_region_retry() {
    let mut s = started(10, 10, 20);
    for _ in 0..3 {
        let (next, _) = budget_step(&s, BudgetEvent::PassDue { expired: false });
        let (next, _) = budget_step(&next, BudgetEvent::Binarized { expired: false });
        let (next, a) = budget_step(&next, BudgetEvent::FindersFound { count: 1 });
        assert_eq!(a, BudgetAction::StartPass);
        s = next;
    }
    // Finder patterns were seen, so contours are tried on the first two
    // binarizations.
    let (s, a) = budget_step(&s, BudgetEvent::PassDue { expired: false });
    assert_eq!(a, BudgetAction::Binarize { policy: BinarizationPolicy::Otsu });
    let (s, a) = budget_step(&s, BudgetEvent::Binarized { expired: false });
    assert_eq!(a, BudgetAction::DetectContours);
    let (s, a) = budget_step(&s, BudgetEvent::ContoursFound { count: 2 });
    assert_eq!(a, BudgetAction::StartPass);
    let (s, a) = budget_step(&s, BudgetEvent::PassDue { expired: false });
    assert_eq!(a, BudgetAction::Binarize { policy: BinarizationPolicy::Adaptive31 });
    assert_eq!(s.counters.otsu_to_adaptive31, 1);
    let (s, _) = budget_step(&s, BudgetEvent::Binarized { expired: false });
    let (s, a) = budget_step(&s, BudgetEvent::ContoursFound { count: 5 });
    assert_eq!(a, BudgetAction::DecodeContourGroups { max_attempts: 20 });
    let (s, a) = budget_step(&s, BudgetEvent::ContourDecoded { attempts: 3, success: false });
    assert_eq!(a, BudgetAction::CheckRoi);
    // The region retry needs weak contrast, at most 90.
    let (weak, a) = budget_step(
        &s,
        BudgetEvent::RoiDue { expired: false, contrast_span: 90, region_found: true },
    );
    assert_eq!(a, BudgetAction::NormalizeRoi);
    let (strong, a) = budget_step(
        &s,
        BudgetEvent::RoiDue { expired: false, contrast_span: 91, region_found: true },
    );
    assert_eq!(a, BudgetAction::Stop);
    assert_eq!(strong.counters.roi_norm_skipped, 1);
    let (s, a) = budget_step(&weak, BudgetEvent::RoiBinarized { expired: false });
    assert_eq!(a, BudgetAction::FindPatterns);
    assert_eq!(s.counters.roi_norm_attempts, 1);
    let (s, a) = budget_step(&s, BudgetEvent::FindersFound { count: 4 });
    assert_eq!(a, BudgetAction::DecodeGroups { max_attempts: 17 });
    assert_eq!(s.counters.finder_patterns_found, 4);
    let (s, a) = budget_step(&s, BudgetEvent::GroupsDecoded { attempts: 2, success: true });
    assert_eq!(a, BudgetAction::Stop);
    assert!(s.decoded);
    assert_eq!(s.counters.roi_norm_successes, 1);
    assert_eq!(s.counters.roi_norm_skipped, 0);
    assert_eq!(s.decode_attempts, 5);
}

#[test]
fn an_event_out_of_turn_ends_the_schedule() {
    let s = started(10, 10, 5);
    let (s, a) = budget_step(&s, BudgetEvent::RoiBinarized { expired: false });
    assert_eq!(a, BudgetAction::Stop);
    assert!(s.stopped);
    assert_eq!(s.counters.roi_norm_skipped, 0);
}
