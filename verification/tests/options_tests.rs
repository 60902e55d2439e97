use rust_qr::{CancellationToken, DecoderOptions, DecoderPreset, FailureStage};
use rust_qr::options::classify_failure_stage;
use std::time::Duration;

#[test]
fn decoder_options_presets_are_immutable_and_ordered() {
    let fast = DecoderOptions::with_preset(DecoderPreset::Fast);
    let balanced = DecoderOptions::default();
    let exhaustive = DecoderOptions::with_preset(DecoderPreset::Exhaustive);
    assert!(fast.deadline() < balanced.deadline());
    assert!(balanced.deadline() < exhaustive.deadline());
    assert!(fast.candidate_limit() < balanced.candidate_limit());
    assert!(balanced.candidate_limit() < exhaustive.candidate_limit());
    assert!(fast.erasure_attempt_limit() < balanced.erasure_attempt_limit());
    assert!(balanced.erasure_attempt_limit() < exhaustive.erasure_attempt_limit());
    assert_eq!(fast.clone().with_candidate_limit(3).candidate_limit(), 3);
    assert_eq!(
        fast.clone()
            .with_erasure_attempt_limit(3)
            .erasure_attempt_limit(),
        3
    );
    assert_eq!(fast.candidate_limit(), 16);
    assert_eq!(fast.erasure_attempt_limit(), 4);
    assert!(!fast.diagnostics_enabled());
    assert!(fast.clone().with_diagnostics(true).diagnostics_enabled());
    assert!(!fast.diagnostics_enabled());
}

#[test]
fn preset_deadlines_have_exact_values() {
    assert_eq!(
        DecoderOptions::with_preset(DecoderPreset::Fast).deadline(),
        Duration::from_millis(250)
    );
    assert_eq!(DecoderOptions::default().deadline(), Duration::from_secs(2));
    assert_eq!(
        DecoderOptions::with_preset(DecoderPreset::Exhaustive).deadline(),
        Duration::from_secs(10)
    );
    assert_eq!(DecoderOptions::default().preset(), DecoderPreset::Balanced);
    assert_eq!(DecoderPreset::default(), DecoderPreset::Balanced);
}

#[test]
fn builders_change_only_their_own_field() {
    let options = DecoderOptions::with_preset(DecoderPreset::Exhaustive)
        .with_deadline(Duration::from_millis(7));
    assert_eq!(options.deadline(), Duration::from_millis(7));
    assert_eq!(options.candidate_limit(), 512);
    assert_eq!(options.erasure_attempt_limit(), 64);
    assert_eq!(options.preset(), DecoderPreset::Exhaustive);
}

#[test]
fn cancellation_is_shared_between_clones_only() {
    let token = CancellationToken::new();
    let independent = CancellationToken::default();
    let options = DecoderOptions::default().with_cancellation(token.clone());
    let other = DecoderOptions::default().with_cancellation(independent.clone());
    assert!(!options.is_cancelled());
    token.cancel();
    assert!(token.is_cancelled());
    assert!(options.is_cancelled());
    assert!(!other.is_cancelled());
    assert!(!independent.is_cancelled());
    assert!(!DecoderOptions::default().is_cancelled());
}

#[test]
fn failure_stages_compare_by_variant() {
    assert_eq!(FailureStage::Timeout, FailureStage::Timeout);
    assert_ne!(FailureStage::Detection, FailureStage::Geometry);
}

#[test]
fn cancellation_handle_shares_the_flag() {
    assert!(DecoderOptions::default().cancellation().is_none());
    let token = CancellationToken::new();
    let options = DecoderOptions::default().with_cancellation(token.clone());
    let handle = options.cancellation().unwrap();
    assert!(!handle.is_cancelled());
    token.cancel();
    assert!(handle.is_cancelled());
    assert!(options.is_cancelled());
}

#[test]
fn failure_stage_follows_the_furthest_counter() {
    assert_eq!(classify_failure_stage(1, 5, 5, 5), FailureStage::Detection);
    assert_eq!(classify_failure_stage(3, 0, 5, 5), FailureStage::Geometry);
    assert_eq!(classify_failure_stage(3, 1, 1, 5), FailureStage::UnsupportedContent);
    assert_eq!(classify_failure_stage(3, 1, 0, 0), FailureStage::ReedSolomon);
    assert_eq!(classify_failure_stage(3, 1, 0, 2), FailureStage::Payload);
}

#[test]
fn preset_deadlines_in_nanoseconds() {
    assert_eq!(DecoderOptions::with_preset(DecoderPreset::Fast).deadline().as_nanos(), 250_000_000);
    assert_eq!(
        DecoderOptions::with_preset(DecoderPreset::Balanced).deadline().as_nanos(),
        2_000_000_000
    );
    assert_eq!(
        DecoderOptions::with_preset(DecoderPreset::Exhaustive).deadline().as_nanos(),
        10_000_000_000
    );
}
