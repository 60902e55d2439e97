//! The schedule of a pooled detection: a fast Otsu pass, then the finder
//! scan on the binarization that suits the image size with a fallback to the
//! other one, group decoding, contour detection, a Sauvola pass and a last
//! retry on the other binarization. The caller scans, decodes and reports;
//! the order of the work and when it ends are decided here.

use vstd::prelude::*;
use crate::pipeline::pass_schedule::FINDER_PATTERN_THRESHOLD;

verus! {

/// The binary images a pooled detection works on.
#[derive(Clone, Copy, Debug, PartialEq, Eq, Structural)]
pub enum PoolBinary {
    /// Otsu's global threshold.
    Otsu,
    /// Local-mean thresholding with a 31-pixel window.
    Adaptive31,
    /// Sauvola thresholding with a 31-pixel window and k = 0.2.
    Sauvola,
}

/// Where a pooled detection stands.
#[derive(Clone, Copy, Debug, PartialEq, Eq, Structural)]
pub enum PoolStage {
    FastScan,
    FastDecode,
    Primary,
    Secondary,
    Groups,
    Contours,
    ContourDecode,
    SauvolaScan,
    SauvolaDecode,
    LastScan,
    LastDecode,
    Done,
}

/// The state of a pooled detection.
#[derive(Clone, Copy, Debug, PartialEq, Eq, Structural)]
pub struct PoolState {
    /// Whether the image is large (800 pixels or more on a side), which
    /// makes the adaptive binarization the primary one.
    pub large: bool,
    /// The stage reached.
    pub stage: PoolStage,
    /// The binarization whose finder patterns are decoded.
    pub chosen: PoolBinary,
    /// Finder patterns found on the chosen binarization.
    pub patterns: usize,
    /// Whether a decode succeeded.
    pub decoded: bool,
}

/// What the caller observed after the work it was asked to do.
#[derive(Clone, Copy, Debug, PartialEq, Eq, Structural)]
pub enum PoolEvent {
    /// The finder scan found `count` patterns.
    FindersFound { count: usize },
    /// Group decoding succeeded or not.
    Decoded { success: bool },
    /// Contour detection found `count` patterns.
    ContoursFound { count: usize },
}

/// The work the caller is asked to do next.
#[derive(Clone, Copy, Debug, PartialEq, Eq, Structural)]
pub enum PoolAction {
    /// Scan `binary` for finder patterns (binarizing it first if it is the
    /// Sauvola image), then report `FindersFound`.
    FindPatterns { binary: PoolBinary },
    /// Group and decode the patterns last found on `binary`, with the
    /// module-size-aware retry when `module_retry`, then report `Decoded`.
    DecodeGroups { binary: PoolBinary, module_retry: bool },
    /// Detect contour patterns on `binary`, then report `ContoursFound`.
    DetectContours { binary: PoolBinary },
    /// Start nothing more.
    Stop,
}

/// The binarization scanned first: adaptive for large images, Otsu else.
pub open spec fn primary(large: bool) -> PoolBinary {
    if large {
        PoolBinary::Adaptive31
    } else {
        PoolBinary::Otsu
    }
}

/// The other of the two full-image binarizations.
pub open spec fn secondary(large: bool) -> PoolBinary {
    if large {
        PoolBinary::Otsu
    } else {
        PoolBinary::Adaptive31
    }
}

/// Order of the stages; every step moves to a later one or stops.
pub open spec fn stage_rank(stage: PoolStage) -> int {
    match stage {
        PoolStage::FastScan => 0,
        PoolStage::FastDecode => 1,
        PoolStage::Primary => 2,
        PoolStage::Secondary => 3,
        PoolStage::Groups => 4,
        PoolStage::Contours => 5,
        PoolStage::ContourDecode => 6,
        PoolStage::SauvolaScan => 7,
        PoolStage::SauvolaDecode => 8,
        PoolStage::LastScan => 9,
        PoolStage::LastDecode => 10,
        PoolStage::Done => 11,
    }
}

/// More finder patterns than the threshold skip group decoding.
pub open spec fn too_many(s: PoolState) -> bool {
    s.patterns > FINDER_PATTERN_THRESHOLD
}

/// The detection ended, with or without a result.
pub open spec fn finished(s: PoolState, decoded: bool) -> (PoolState, PoolAction) {
    (PoolState { stage: PoolStage::Done, decoded, ..s }, PoolAction::Stop)
}

/// The primary scan is next.
pub open spec fn to_primary(s: PoolState) -> (PoolState, PoolAction) {
    (PoolState { stage: PoolStage::Primary, ..s }, PoolAction::FindPatterns { binary: primary(s.large) })
}

/// The patterns to decode are chosen: decode their groups unless there are
/// too many, else go straight to contours.
pub open spec fn after_choice(s: PoolState) -> (PoolState, PoolAction) {
    if !too_many(s) {
        (
            PoolState { stage: PoolStage::Groups, ..s },
            PoolAction::DecodeGroups { binary: s.chosen, module_retry: true },
        )
    } else {
        (PoolState { stage: PoolStage::Contours, ..s }, PoolAction::DetectContours { binary: s.chosen })
    }
}

/// Contours gave nothing: the Sauvola pass unless there were too many
/// patterns, which ends the detection.
pub open spec fn after_contours(s: PoolState) -> (PoolState, PoolAction) {
    if too_many(s) {
        finished(s, false)
    } else {
        (
            PoolState { stage: PoolStage::SauvolaScan, ..s },
            PoolAction::FindPatterns { binary: PoolBinary::Sauvola },
        )
    }
}

/// The last retry: scan the other binarization again.
pub open spec fn to_last(s: PoolState) -> (PoolState, PoolAction) {
    (PoolState { stage: PoolStage::LastScan, ..s }, PoolAction::FindPatterns { binary: secondary(s.large) })
}

/// Whether a pattern count can be grouped in the later passes: two to the
/// threshold.
pub open spec fn groupable(count: usize) -> bool {
    2 <= count && count <= FINDER_PATTERN_THRESHOLD
}

/// The next state and action after `event`. An event that the stage does
/// not expect ends the detection without a result.
pub open spec fn spec_pool_step(s: PoolState, event: PoolEvent) -> (PoolState, PoolAction) {
    match (s.stage, event) {
        (PoolStage::Done, _) => (s, PoolAction::Stop),
        (PoolStage::FastScan, PoolEvent::FindersFound { count }) => if count < 2 {
            to_primary(s)
        } else {
            (
                PoolState { stage: PoolStage::FastDecode, ..s },
                PoolAction::DecodeGroups { binary: PoolBinary::Otsu, module_retry: false },
            )
        },
        (PoolStage::FastDecode, PoolEvent::Decoded { success }) => if success {
            finished(s, true)
        } else {
            to_primary(s)
        },
        (PoolStage::Primary, PoolEvent::FindersFound { count }) => {
            let s1 = PoolState { chosen: primary(s.large), patterns: count, ..s };
            if count < 3 {
                (
                    PoolState { stage: PoolStage::Secondary, ..s1 },
                    PoolAction::FindPatterns { binary: secondary(s.large) },
                )
            } else {
                after_choice(s1)
            }
        },
        (PoolStage::Secondary, PoolEvent::FindersFound { count }) => if count >= 2 {
            after_choice(PoolState { chosen: secondary(s.large), patterns: count, ..s })
        } else {
            after_choice(s)
        },
        (PoolStage::Groups, PoolEvent::Decoded { success }) => if success {
            finished(s, true)
        } else {
            (PoolState { stage: PoolStage::Contours, ..s }, PoolAction::DetectContours { binary: s.chosen })
        },
        (PoolStage::Contours, PoolEvent::ContoursFound { count }) => if count >= 2 {
            (
                PoolState { stage: PoolStage::ContourDecode, ..s },
                PoolAction::DecodeGroups { binary: s.chosen, module_retry: false },
            )
        } else {
            after_contours(s)
        },
        (PoolStage::ContourDecode, PoolEvent::Decoded { success }) => if success {
            finished(s, true)
        } else {
            after_contours(s)
        },
        (PoolStage::SauvolaScan, PoolEvent::FindersFound { count }) => if groupable(count) {
            (
                PoolState { stage: PoolStage::SauvolaDecode, ..s },
                PoolAction::DecodeGroups { binary: PoolBinary::Sauvola, module_retry: true },
            )
        } else {
            to_last(s)
        },
        (PoolStage::SauvolaDecode, PoolEvent::Decoded { success }) => if success {
            finished(s, true)
        } else {
            to_last(s)
        },
        (PoolStage::LastScan, PoolEvent::FindersFound { count }) => if groupable(count) {
            (
                PoolState { stage: PoolStage::LastDecode, ..s },
                PoolAction::DecodeGroups { binary: secondary(s.large), module_retry: true },
            )
        } else {
            finished(s, false)
        },
        (PoolStage::LastDecode, PoolEvent::Decoded { success }) => finished(s, success),
        _ => finished(s, false),
    }
}

/// The state of a pooled detection of a `width` by `height` image before
/// any work, and its first action: the fast path's finder scan on the Otsu
/// image.
pub fn pool_start(width: usize, height: usize) -> (r: (PoolState, PoolAction))
    ensures
        r.0 == (PoolState {
            large: width >= 800 || height >= 800,
            stage: PoolStage::FastScan,
            chosen: PoolBinary::Otsu,
            patterns: 0,
            decoded: false,
        }),
        r.1 == (PoolAction::FindPatterns { binary: PoolBinary::Otsu }),
{
    (
        PoolState {
            large: width >= 800 || height >= 800,
            stage: PoolStage::FastScan,
            chosen: PoolBinary::Otsu,
            patterns: 0,
            decoded: false,
        },
        PoolAction::FindPatterns { binary: PoolBinary::Otsu },
    )
}

fn primary_of(large: bool) -> (b: PoolBinary)
    ensures
        b == primary(large),
{
    if large {
        PoolBinary::Adaptive31
    } else {
        PoolBinary::Otsu
    }
}

fn secondary_of(large: bool) -> (b: PoolBinary)
    ensures
        b == secondary(large),
{
    if large {
        PoolBinary::Otsu
    } else {
        PoolBinary::Adaptive31
    }
}

fn finish(s: PoolState, decoded: bool) -> (r: (PoolState, PoolAction))
    ensures
        r == finished(s, decoded),
{
    (PoolState { stage: PoolStage::Done, decoded, ..s }, PoolAction::Stop)
}

fn choose_done(s: PoolState) -> (r: (PoolState, PoolAction))
    ensures
        r == after_choice(s),
{
    if s.patterns <= FINDER_PATTERN_THRESHOLD {
        (
            PoolState { stage: PoolStage::Groups, ..s },
            PoolAction::DecodeGroups { binary: s.chosen, module_retry: true },
        )
    } else {
        (PoolState { stage: PoolStage::Contours, ..s }, PoolAction::DetectContours { binary: s.chosen })
    }
}

fn contours_done(s: PoolState) -> (r: (PoolState, PoolAction))
    ensures
        r == after_contours(s),
{
    if s.patterns > FINDER_PATTERN_THRESHOLD {
        finish(s, false)
    } else {
        (
            PoolState { stage: PoolStage::SauvolaScan, ..s },
            PoolAction::FindPatterns { binary: PoolBinary::Sauvola },
        )
    }
}

fn last_retry(s: PoolState) -> (r: (PoolState, PoolAction))
    ensures
        r == to_last(s),
{
    (
        PoolState { stage: PoolStage::LastScan, ..s },
        PoolAction::FindPatterns { binary: secondary_of(s.large) },
    )
}

fn primary_scan(s: PoolState) -> (r: (PoolState, PoolAction))
    ensures
        r == to_primary(s),
{
    (PoolState { stage: PoolStage::Primary, ..s }, PoolAction::FindPatterns { binary: primary_of(s.large) })
}

/// One step of a pooled detection: the state after `event` and the work to
/// do next. Every step moves to a later stage or stops, so a detection ends
/// after at most twelve steps; group decoding of scanned finder patterns is
/// only asked for when there are at most `FINDER_PATTERN_THRESHOLD`; a
/// success ends the detection; a finished detection stays finished.
pub fn pool_step(state: &PoolState, event: PoolEvent) -> (r: (PoolState, PoolAction))
    ensures
        r == spec_pool_step(*state, event),
        r.1 == PoolAction::Stop <==> r.0.stage == PoolStage::Done,
        state.stage == PoolStage::Done ==> r.0 == *state,
        state.stage != PoolStage::Done ==> stage_rank(r.0.stage) > stage_rank(state.stage),
        !state.decoded && r.0.decoded ==> r.0.stage == PoolStage::Done,
        r.1 matches PoolAction::DecodeGroups { module_retry, .. } && module_retry ==> r.0.patterns
            <= FINDER_PATTERN_THRESHOLD || (event matches PoolEvent::FindersFound { count } && groupable(
            count,
        )),
{
    let s = *state;
    match (s.stage, event) {
        (PoolStage::Done, _) => (s, PoolAction::Stop),
        (PoolStage::FastScan, PoolEvent::FindersFound { count }) => {
            if count < 2 {
                primary_scan(s)
            } else {
                (
                    PoolState { stage: PoolStage::FastDecode, ..s },
                    PoolAction::DecodeGroups { binary: PoolBinary::Otsu, module_retry: false },
                )
            }
        },
        (PoolStage::FastDecode, PoolEvent::Decoded { success }) => {
            if success {
                finish(s, true)
            } else {
                primary_scan(s)
            }
        },
        (PoolStage::Primary, PoolEvent::FindersFound { count }) => {
            let s1 = PoolState { chosen: primary_of(s.large), patterns: count, ..s };
            if count < 3 {
                (
                    PoolState { stage: PoolStage::Secondary, ..s1 },
                    PoolAction::FindPatterns { binary: secondary_of(s.large) },
                )
            } else {
                choose_done(s1)
            }
        },
        (PoolStage::Secondary, PoolEvent::FindersFound { count }) => {
            if count >= 2 {
                choose_done(PoolState { chosen: secondary_of(s.large), patterns: count, ..s })
            } else {
                choose_done(s)
            }
        },
        (PoolStage::Groups, PoolEvent::Decoded { success }) => {
            if success {
                finish(s, true)
            } else {
                (
                    PoolState { stage: PoolStage::Contours, ..s },
                    PoolAction::DetectContours { binary: s.chosen },
                )
            }
        },
        (PoolStage::Contours, PoolEvent::ContoursFound { count }) => {
            if count >= 2 {
                (
                    PoolState { stage: PoolStage::ContourDecode, ..s },
                    PoolAction::DecodeGroups { binary: s.chosen, module_retry: false },
                )
            } else {
                contours_done(s)
            }
        },
        (PoolStage::ContourDecode, PoolEvent::Decoded { success }) => {
            if success {
                finish(s, true)
            } else {
                contours_done(s)
            }
        },
        (PoolStage::SauvolaScan, PoolEvent::FindersFound { count }) => {
            if 2 <= count && count <= FINDER_PATTERN_THRESHOLD {
                (
                    PoolState { stage: PoolStage::SauvolaDecode, ..s },
                    PoolAction::DecodeGroups { binary: PoolBinary::Sauvola, module_retry: true },
                )
            } else {
                last_retry(s)
            }
        },
        (PoolStage::SauvolaDecode, PoolEvent::Decoded { success }) => {
            if success {
                finish(s, true)
            } else {
                last_retry(s)
            }
        },
        (PoolStage::LastScan, PoolEvent::FindersFound { count }) => {
            if 2 <= count && count <= FINDER_PATTERN_THRESHOLD {
                (
                    PoolState { stage: PoolStage::LastDecode, ..s },
                    PoolAction::DecodeGroups { binary: secondary_of(s.large), module_retry: true },
                )
            } else {
                finish(s, false)
            }
        },
        (PoolStage::LastDecode, PoolEvent::Decoded { success }) => finish(s, success),
        _ => finish(s, false),
    }
}

} // verus!
