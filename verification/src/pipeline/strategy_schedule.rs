//! The schedule of the multi-binarization strategy pass: which binarizations
//! are tried, in which order, when their finder patterns are decoded, when
//! contour detection follows, and when the pass ends. The caller builds the
//! binary images, scans, decodes and merges results; the plan and the
//! decisions live here.

use vstd::prelude::*;
use crate::pipeline::pass_schedule::FINDER_PATTERN_THRESHOLD;
use crate::strategy::{auto_window, histogram_median, median_level, spec_auto_window};

verus! {

/// How far the global thresholds sit below and above the median grey level.
pub const MEDIAN_OFFSET: u8 = 26;

/// One binarization of the strategy pass.
#[derive(Clone, Copy, Debug, PartialEq, Eq, Structural)]
pub enum StrategyVariant {
    /// Sauvola thresholding with window `window` and `k` = `k_tenths` / 10.
    Sauvola { window: usize, k_tenths: u8 },
    /// Local-mean thresholding with window `window`.
    Adaptive { window: usize },
    /// Otsu's global threshold.
    Otsu,
    /// A fixed global threshold: dark below `level`.
    Threshold { level: u8 },
}

/// The large window: twice the window, clamped to 63..=255.
pub open spec fn large_window_of(window: int) -> int {
    if 2 * window < 63 {
        63
    } else if 2 * window > 255 {
        255
    } else {
        2 * window
    }
}

/// `v` clamped to the grey levels.
pub open spec fn clamp_level(v: int) -> u8 {
    if v < 0 {
        0
    } else if v > 255 {
        255
    } else {
        v as u8
    }
}

/// The binarizations tried, in order: Sauvola (k = 0.2), adaptive, Otsu,
/// the thresholds 26 below and above the median, Sauvola with k = 0.1 and
/// 0.3, then, when the large window differs from the window, Sauvola and
/// adaptive with the large window.
pub open spec fn strategy_variants(window: usize, median: int) -> Seq<StrategyVariant> {
    let large = large_window_of(window as int) as usize;
    let base = seq![
        StrategyVariant::Sauvola { window, k_tenths: 2 },
        StrategyVariant::Adaptive { window },
        StrategyVariant::Otsu,
        StrategyVariant::Threshold { level: clamp_level(median - MEDIAN_OFFSET) },
        StrategyVariant::Threshold { level: clamp_level(median + MEDIAN_OFFSET) },
        StrategyVariant::Sauvola { window, k_tenths: 1 },
        StrategyVariant::Sauvola { window, k_tenths: 3 },
    ];
    if large != window {
        base + seq![
            StrategyVariant::Sauvola { window: large, k_tenths: 2 },
            StrategyVariant::Adaptive { window: large },
        ]
    } else {
        base
    }
}

/// The binarizations to try on a `width` x `height` image `gray`.
pub fn strategy_variants_for(gray: &[u8], width: usize, height: usize) -> (variants: Vec<StrategyVariant>)
    requires
        gray@.len() <= u32::MAX,
    ensures
        variants@ == strategy_variants(
            spec_auto_window(width as int, height as int) as usize,
            median_level(gray@),
        ),
{
    let window = auto_window(width, height);
    let twice = if window <= 200 {
        2 * window
    } else {
        400
    };
    let large = if twice < 63 {
        63
    } else if twice > 255 {
        255
    } else {
        twice
    };
    let median = histogram_median(gray);
    let dark = if median >= MEDIAN_OFFSET {
        median - MEDIAN_OFFSET
    } else {
        0
    };
    let light = if median <= 255 - MEDIAN_OFFSET {
        median + MEDIAN_OFFSET
    } else {
        255
    };
    let mut variants: Vec<StrategyVariant> = Vec::new();
    variants.push(StrategyVariant::Sauvola { window, k_tenths: 2 });
    variants.push(StrategyVariant::Adaptive { window });
    variants.push(StrategyVariant::Otsu);
    variants.push(StrategyVariant::Threshold { level: dark });
    variants.push(StrategyVariant::Threshold { level: light });
    variants.push(StrategyVariant::Sauvola { window, k_tenths: 1 });
    variants.push(StrategyVariant::Sauvola { window, k_tenths: 3 });
    if large != window {
        variants.push(StrategyVariant::Sauvola { window: large, k_tenths: 2 });
        variants.push(StrategyVariant::Adaptive { window: large });
    }
    proof {
        assert(large == large_window_of(window as int));
        assert(variants@ =~= strategy_variants(window, median as int));
    }
    variants
}

/// Where the strategy pass stands within the current binarization.
#[derive(Clone, Copy, Debug, PartialEq, Eq, Structural)]
pub enum StrategyStage {
    VariantDue,
    Scan,
    Decode,
    ContourDue,
    Contours,
    ContourDecode,
    Done,
}

/// The state of a strategy pass.
#[derive(Clone, Copy, Debug, PartialEq, Eq, Structural)]
pub struct StrategyState {
    /// Number of binarizations planned.
    pub variant_count: usize,
    /// Index of the current binarization.
    pub index: usize,
    /// The stage within it.
    pub stage: StrategyStage,
    /// Finder patterns found on it.
    pub patterns: usize,
    /// Whether any result has been kept.
    pub have_results: bool,
}

/// What the caller observed.
#[derive(Clone, Copy, Debug, PartialEq, Eq, Structural)]
pub enum StrategyEvent {
    /// The next binarization is due; whether the request has expired.
    VariantDue { expired: bool },
    /// The finder scan found `count` patterns.
    FindersFound { count: usize },
    /// Group decoding decoded anything or not, and whether the kept
    /// results are still empty after merging.
    Decoded { decoded_any: bool, results_empty: bool },
    /// Contour detection is due; whether the request has expired.
    ContourDue { expired: bool },
    /// Contour detection found `count` patterns.
    ContoursFound { count: usize },
    /// Contour groups were decoded; whether the kept results are still
    /// empty after merging.
    ContourDecoded { results_empty: bool },
}

/// The work the caller is asked to do next.
#[derive(Clone, Copy, Debug, PartialEq, Eq, Structural)]
pub enum StrategyAction {
    /// Report `VariantDue`.
    CheckVariant,
    /// Build binarization `index` of the plan, scan it for finder patterns
    /// and report `FindersFound`.
    Scan { index: usize },
    /// Decode groups of the patterns with the module-size-aware retry,
    /// merge new payloads and report `Decoded`.
    DecodeGroups { index: usize },
    /// Report `ContourDue`.
    CheckContour,
    /// Detect contour patterns on binarization `index`, report
    /// `ContoursFound`.
    DetectContours { index: usize },
    /// Decode groups of the contour patterns, merge new payloads and
    /// report `ContourDecoded`.
    DecodeContours { index: usize },
    /// Start nothing more.
    Stop,
}

/// A consistent state: the index within the plan.
pub open spec fn strategy_wf(s: StrategyState) -> bool {
    s.index <= s.variant_count
}

/// Progress of the pass: grows with every step that does not stop.
pub open spec fn strategy_progress(s: StrategyState) -> int {
    8 * s.index + match s.stage {
        StrategyStage::VariantDue => 0int,
        StrategyStage::Scan => 1int,
        StrategyStage::Decode => 2int,
        StrategyStage::ContourDue => 3int,
        StrategyStage::Contours => 4int,
        StrategyStage::ContourDecode => 5int,
        StrategyStage::Done => 6int,
    }
}

/// The pass ended.
pub open spec fn strategy_done(s: StrategyState) -> (StrategyState, StrategyAction) {
    (StrategyState { stage: StrategyStage::Done, ..s }, StrategyAction::Stop)
}

/// The current binarization is finished: stop once results are kept, else
/// move to the next one.
pub open spec fn end_variant(s: StrategyState) -> (StrategyState, StrategyAction) {
    if s.have_results || s.index >= s.variant_count {
        strategy_done(s)
    } else {
        (
            StrategyState { stage: StrategyStage::VariantDue, index: (s.index + 1) as usize, ..s },
            StrategyAction::CheckVariant,
        )
    }
}

/// Contours are tried when nothing is kept, when found patterns failed to
/// decode, or when there were too many patterns to decode.
pub open spec fn contour_wanted(results_empty: bool, patterns: usize, decoded_any: bool) -> bool {
    results_empty || (patterns >= 2 && !decoded_any) || patterns > FINDER_PATTERN_THRESHOLD
}

/// The next state and action after `event`. An event that the stage does
/// not expect ends the pass.
pub open spec fn spec_strategy_step(s: StrategyState, event: StrategyEvent) -> (StrategyState, StrategyAction) {
    match (s.stage, event) {
        (StrategyStage::Done, _) => (s, StrategyAction::Stop),
        (StrategyStage::VariantDue, StrategyEvent::VariantDue { expired }) => if expired || s.index
            >= s.variant_count {
            strategy_done(s)
        } else {
            (StrategyState { stage: StrategyStage::Scan, ..s }, StrategyAction::Scan { index: s.index })
        },
        (StrategyStage::Scan, StrategyEvent::FindersFound { count }) => {
            let s1 = StrategyState { patterns: count, ..s };
            if 2 <= count && count <= FINDER_PATTERN_THRESHOLD {
                (
                    StrategyState { stage: StrategyStage::Decode, ..s1 },
                    StrategyAction::DecodeGroups { index: s.index },
                )
            } else if contour_wanted(!s.have_results, count, false) {
                (StrategyState { stage: StrategyStage::ContourDue, ..s1 }, StrategyAction::CheckContour)
            } else {
                end_variant(s1)
            }
        },
        (StrategyStage::Decode, StrategyEvent::Decoded { decoded_any, results_empty }) => {
            let s1 = StrategyState { have_results: !results_empty, ..s };
            if contour_wanted(results_empty, s.patterns, decoded_any) {
                (StrategyState { stage: StrategyStage::ContourDue, ..s1 }, StrategyAction::CheckContour)
            } else {
                end_variant(s1)
            }
        },
        (StrategyStage::ContourDue, StrategyEvent::ContourDue { expired }) => if expired {
            end_variant(s)
        } else {
            (
                StrategyState { stage: StrategyStage::Contours, ..s },
                StrategyAction::DetectContours { index: s.index },
            )
        },
        (StrategyStage::Contours, StrategyEvent::ContoursFound { count }) => if count >= 2 {
            (
                StrategyState { stage: StrategyStage::ContourDecode, ..s },
                StrategyAction::DecodeContours { index: s.index },
            )
        } else {
            end_variant(s)
        },
        (StrategyStage::ContourDecode, StrategyEvent::ContourDecoded { results_empty }) => end_variant(
            StrategyState { have_results: !results_empty, ..s },
        ),
        _ => strategy_done(s),
    }
}

/// The start of a strategy pass over `variant_count` binarizations; the
/// caller reports `VariantDue` first.
pub fn strategy_start(variant_count: usize) -> (s: StrategyState)
    ensures
        s == (StrategyState {
            variant_count,
            index: 0,
            stage: StrategyStage::VariantDue,
            patterns: 0,
            have_results: false,
        }),
        strategy_wf(s),
{
    StrategyState {
        variant_count,
        index: 0,
        stage: StrategyStage::VariantDue,
        patterns: 0,
        have_results: false,
    }
}

fn done_exec(s: StrategyState) -> (r: (StrategyState, StrategyAction))
    ensures
        r == strategy_done(s),
{
    (StrategyState { stage: StrategyStage::Done, ..s }, StrategyAction::Stop)
}

fn end_variant_exec(s: StrategyState) -> (r: (StrategyState, StrategyAction))
    requires
        strategy_wf(s),
    ensures
        r == end_variant(s),
{
    if s.have_results || s.index >= s.variant_count {
        done_exec(s)
    } else {
        (
            StrategyState { stage: StrategyStage::VariantDue, index: s.index + 1, ..s },
            StrategyAction::CheckVariant,
        )
    }
}

/// One step of the strategy pass: the state after `event` and the work to
/// do next. Binarizations are tried in plan order, each at most once, so the
/// pass ends after at most eight steps per binarization; once the request
/// has expired no binarization or contour detection is started; finder
/// groups are decoded only for two to `FINDER_PATTERN_THRESHOLD` patterns;
/// a pass that kept a result stops at the end of that binarization; a
/// finished pass stays finished.
pub fn strategy_step(state: &StrategyState, event: StrategyEvent) -> (r: (StrategyState, StrategyAction))
    requires
        strategy_wf(*state),
    ensures
        r == spec_strategy_step(*state, event),
        strategy_wf(r.0),
        r.0.variant_count == state.variant_count,
        r.1 == StrategyAction::Stop <==> r.0.stage == StrategyStage::Done,
        state.stage == StrategyStage::Done ==> r.0 == *state,
        state.stage != StrategyStage::Done ==> strategy_progress(r.0) > strategy_progress(*state),
        (event matches StrategyEvent::VariantDue { expired } && expired) || (
        event matches StrategyEvent::ContourDue { expired } && expired) ==> r.1
            == StrategyAction::Stop || r.1 == StrategyAction::CheckVariant,
        r.1 matches StrategyAction::DecodeGroups { .. } ==> 2 <= r.0.patterns
            <= FINDER_PATTERN_THRESHOLD,
        r.1 matches StrategyAction::Scan { index } ==> index < state.variant_count,
{
    let s = *state;
    match (s.stage, event) {
        (StrategyStage::Done, _) => (s, StrategyAction::Stop),
        (StrategyStage::VariantDue, StrategyEvent::VariantDue { expired }) => {
            if expired || s.index >= s.variant_count {
                done_exec(s)
            } else {
                (
                    StrategyState { stage: StrategyStage::Scan, ..s },
                    StrategyAction::Scan { index: s.index },
                )
            }
        },
        (StrategyStage::Scan, StrategyEvent::FindersFound { count }) => {
            let s1 = StrategyState { patterns: count, ..s };
            if 2 <= count && count <= FINDER_PATTERN_THRESHOLD {
                (
                    StrategyState { stage: StrategyStage::Decode, ..s1 },
                    StrategyAction::DecodeGroups { index: s.index },
                )
            } else if !s.have_results || count >= 2 || count > FINDER_PATTERN_THRESHOLD {
                (
                    StrategyState { stage: StrategyStage::ContourDue, ..s1 },
                    StrategyAction::CheckContour,
                )
            } else {
                end_variant_exec(s1)
            }
        },
        (StrategyStage::Decode, StrategyEvent::Decoded { decoded_any, results_empty }) => {
            let s1 = StrategyState { have_results: !results_empty, ..s };
            if results_empty || (s.patterns >= 2 && !decoded_any) || s.patterns
                > FINDER_PATTERN_THRESHOLD {
                (
                    StrategyState { stage: StrategyStage::ContourDue, ..s1 },
                    StrategyAction::CheckContour,
                )
            } else {
                end_variant_exec(s1)
            }
        },
        (StrategyStage::ContourDue, StrategyEvent::ContourDue { expired }) => {
            if expired {
                end_variant_exec(s)
            } else {
                (
                    StrategyState { stage: StrategyStage::Contours, ..s },
                    StrategyAction::DetectContours { index: s.index },
                )
            }
        },
        (StrategyStage::Contours, StrategyEvent::ContoursFound { count }) => {
            if count >= 2 {
                (
                    StrategyState { stage: StrategyStage::ContourDecode, ..s },
                    StrategyAction::DecodeContours { index: s.index },
                )
            } else {
                end_variant_exec(s)
            }
        },
        (StrategyStage::ContourDecode, StrategyEvent::ContourDecoded { results_empty }) => {
            end_variant_exec(StrategyState { have_results: !results_empty, ..s })
        },
        _ => done_exec(s),
    }
}

} // verus!
