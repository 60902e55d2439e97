use rust_qr::pipeline::decode_budget::{
    DecodeGuard, FallbackPolicy, RescuePass, WindowSet, base_decode_at_full_size,
    base_decode_max_dim_for_budget, decode_full_variants, decode_with_guard, fallback_policy,
    fallback_policy_for, fallback_wanted, rescue_allowed, FALLBACK_MAX_BASE_DECODES,
    FALLBACK_MAX_PIXELS,
};
use std::time::{Duration, Instant};

#[test]
fn fallback_policy_tightens_with_time_and_size() {
    let tight = fallback_policy_for(100, 100, Some(179));
    assert_eq!(
        tight,
        FallbackPolicy {
            max_hypotheses: 2,
            max_proposals: 6,
            max_results: 24,
            windows: WindowSet::Tight,
            allow_full_image_variants: false,
        }
    );
    let roomy = fallback_policy_for(100, 100, Some(180));
    assert_eq!(roomy.max_hypotheses, 8);
    assert!(roomy.allow_full_image_variants);
    assert_eq!(roomy.windows.sizes(), vec![224, 320, 512]);
    let huge = fallback_policy_for(4000, 2001, None);
    assert_eq!((huge.max_hypotheses, huge.max_proposals, huge.max_results), (0, 8, 32));
    assert_eq!(huge.windows.sizes(), vec![256, 384]);
    let large = fallback_policy_for(2000, 1751, None);
    assert_eq!((large.max_hypotheses, large.allow_full_image_variants), (4, false));
    let saturated = fallback_policy_for(usize::MAX, 2, None);
    assert_eq!(saturated.max_hypotheses, 0);
    assert_eq!(WindowSet::Tight.sizes(), vec![224, 320]);
}

#[test]
fn base_decode_size_follows_time_left() {
    assert_eq!(base_decode_max_dim_for_budget(None), 1800);
    assert_eq!(base_decode_max_dim_for_budget(Some(139)), 900);
    assert_eq!(base_decode_max_dim_for_budget(Some(140)), 1100);
    assert_eq!(base_decode_max_dim_for_budget(Some(260)), 1400);
    assert_eq!(base_decode_max_dim_for_budget(Some(280)), 1800);
    assert!(base_decode_at_full_size(1000, 1000, None));
    assert!(!base_decode_at_full_size(2000, 2000, None));
    assert!(!base_decode_at_full_size(1300, 1300, Some(100)));
    assert!(base_decode_at_full_size(1300, 1300, Some(260)));
}

#[test]
fn rescue_passes_need_empty_results_small_images_and_time() {
    assert!(rescue_allowed(RescuePass::Grid, true, 1000, 1000, None));
    assert!(!rescue_allowed(RescuePass::Grid, false, 1000, 1000, None));
    assert!(!rescue_allowed(RescuePass::Grid, true, 1000, 1000, Some(279)));
    assert!(rescue_allowed(RescuePass::Channels, true, 1000, 1000, Some(220)));
    assert!(!rescue_allowed(RescuePass::Upscale, true, 1500, 1500, None));
}

#[test]
fn guard_allows_a_bounded_number_of_runs() {
    let mut guard = DecodeGuard::new(None);
    assert!(!guard.deadline_reached());
    assert_eq!(guard.remaining_ms(), None);
    assert!(guard.has_time(1_000_000));
    for _ in 0..16 {
        assert!(guard.try_consume_attempt());
    }
    assert!(!guard.try_consume_attempt());
    let blank = vec![255u8; 8 * 8];
    assert!(decode_with_guard(&blank, 8, 8, &mut guard).is_empty());
    assert_eq!(fallback_policy(100, 100, &guard).max_hypotheses, 8);
}

#[test]
fn passed_deadline_stops_runs() {
    let past = Instant::now();
    let mut guard = DecodeGuard::new(Some(past));
    assert!(guard.deadline_reached());
    assert_eq!(guard.remaining_ms(), Some(0));
    assert!(!guard.try_consume_attempt());
    assert_eq!(fallback_policy(100, 100, &guard).max_hypotheses, 2);
    let future = DecodeGuard::new(Some(Instant::now() + Duration::from_secs(60)));
    assert!(future.remaining_ms().unwrap() > 50_000);
}

#[test]
fn fallback_runs_only_for_low_decode_count_and_strong_hypotheses() {
    // A hypothesis scored 0.9 is strong evidence; one scored 0.1 is not.
    let strong = true;
    let weak = false;
    assert!(fallback_wanted(0, strong, 512, 512, FALLBACK_MAX_BASE_DECODES + 4));
    assert!(!fallback_wanted(
        FALLBACK_MAX_BASE_DECODES + 1,
        strong,
        512,
        512,
        FALLBACK_MAX_BASE_DECODES + 4
    ));
    assert!(!fallback_wanted(0, weak, 512, 512, FALLBACK_MAX_BASE_DECODES + 4));
    assert!(!fallback_wanted(0, strong, FALLBACK_MAX_PIXELS + 1, 1, FALLBACK_MAX_BASE_DECODES + 4));
}

#[test]
fn fallback_needs_fewer_decodes_than_candidates() {
    assert!(!fallback_wanted(1, true, 512, 512, 1));
    assert!(fallback_wanted(1, true, 512, 512, 2));
}

#[test]
fn full_variants_decode_the_stretched_image_and_its_negative() {
    let mut guard = DecodeGuard::new(None);
    assert!(decode_full_variants(&vec![128u8; 64 * 64], 64, 64, &mut guard).is_empty());
    // Two locator runs were taken.
    for _ in 0..14 {
        assert!(guard.try_consume_attempt());
    }
    assert!(!guard.try_consume_attempt());
}
