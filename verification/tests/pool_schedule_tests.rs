use rust_qr::pipeline::pool_schedule::{
    PoolAction, PoolBinary, PoolEvent, PoolStage, pool_start, pool_step,
};

#[test]
fn the_fast_path_can_finish_the_detection() {
    let (s, a) = pool_start(640, 480);
    assert_eq!(a, PoolAction::FindPatterns { binary: PoolBinary::Otsu });
    let (s, a) = pool_step(&s, PoolEvent::FindersFound { count: 3 });
    assert_eq!(a, PoolAction::DecodeGroups { binary: PoolBinary::Otsu, module_retry: false });
    let (s, a) = pool_step(&s, PoolEvent::Decoded { success: true });
    assert_eq!(a, PoolAction::Stop);
    assert!(s.decoded);
    assert_eq!(s.stage, PoolStage::Done);
}

#[test]
fn a_small_image_goes_through_every_fallback() {
    let (s, _) = pool_start(640, 480);
    let steps = [
        (PoolEvent::FindersFound { count: 1 }, PoolAction::FindPatterns { binary: PoolBinary::Otsu }),
        (
            PoolEvent::FindersFound { count: 2 },
            PoolAction::FindPatterns { binary: PoolBinary::Adaptive31 },
        ),
        (
            PoolEvent::FindersFound { count: 1 },
            PoolAction::DecodeGroups { binary: PoolBinary::Otsu, module_retry: true },
        ),
        (PoolEvent::Decoded { success: false }, PoolAction::DetectContours { binary: PoolBinary::Otsu }),
        (
            PoolEvent::ContoursFound { count: 1 },
            PoolAction::FindPatterns { binary: PoolBinary::Sauvola },
        ),
        (
            PoolEvent::FindersFound { count: 400 },
            PoolAction::FindPatterns { binary: PoolBinary::Adaptive31 },
        ),
        (
            PoolEvent::FindersFound { count: 5 },
            PoolAction::DecodeGroups { binary: PoolBinary::Adaptive31, module_retry: true },
        ),
        (PoolEvent::Decoded { success: false }, PoolAction::Stop),
    ];
    let mut s = s;
    for (event, expected) in steps {
        let (next, a) = pool_step(&s, event);
        assert_eq!(a, expected);
        s = next;
    }
    assert!(!s.decoded);
    assert_eq!(s.stage, PoolStage::Done);
}

#[test]
fn too_many_patterns_skip_grouping_and_sauvola() {
    let (s, _) = pool_start(1000, 600);
    let (s, a) = pool_step(&s, PoolEvent::FindersFound { count: 0 });
    assert_eq!(a, PoolAction::FindPatterns { binary: PoolBinary::Adaptive31 });
    let (s, a) = pool_step(&s, PoolEvent::FindersFound { count: 500 });
    assert_eq!(a, PoolAction::DetectContours { binary: PoolBinary::Adaptive31 });
    let (s, a) = pool_step(&s, PoolEvent::ContoursFound { count: 0 });
    assert_eq!(a, PoolAction::Stop);
    assert!(!s.decoded);
}

#[test]
fn the_other_binarization_is_used_when_the_primary_finds_too_few() {
    let (s, _) = pool_start(1000, 600);
    let (s, _) = pool_step(&s, PoolEvent::FindersFound { count: 0 });
    let (s, a) = pool_step(&s, PoolEvent::FindersFound { count: 1 });
    assert_eq!(a, PoolAction::FindPatterns { binary: PoolBinary::Otsu });
    let (s, a) = pool_step(&s, PoolEvent::FindersFound { count: 4 });
    assert_eq!(a, PoolAction::DecodeGroups { binary: PoolBinary::Otsu, module_retry: true });
    assert_eq!(s.chosen, PoolBinary::Otsu);
    assert_eq!(s.patterns, 4);
    let (done, a) = pool_step(&s, PoolEvent::Decoded { success: true });
    assert_eq!(a, PoolAction::Stop);
    assert!(done.decoded);
    let (again, a) = pool_step(&done, PoolEvent::FindersFound { count: 9 });
    assert_eq!(a, PoolAction::Stop);
    assert_eq!(again, done);
}
