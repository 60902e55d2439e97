//! The schedule of detection work for one request: which binarization and
//! finder pass comes next, when to decode, when to fall back to two-finder
//! or contour decoding, when to retry on a contrast-normalized region around
//! the finder patterns, and when to stop, given what the caller reports
//! after each piece of work. The caller runs the passes; the decisions, the
//! attempt budget and the counters live here.

use vstd::prelude::*;
use crate::strategy::BinarizationPolicy;

verus! {

/// More finder patterns than this skips group decoding for contour
/// detection.
pub const FINDER_PATTERN_THRESHOLD: usize = 384;

/// Number of binarization passes in a request.
pub const PASS_COUNT: usize = 3;

/// Number of binarizations, the first ones of the pass order, that the
/// contour fallback tries.
pub const FALLBACK_PASSES: usize = 2;

/// An image whose brightest and darkest pixels differ by at most this has
/// weak contrast, and only then is the region retry made.
pub const WEAK_CONTRAST_SPAN: u8 = 90;

/// Counters of the pass schedule.
#[derive(Clone, Copy, Debug, PartialEq, Eq, Structural)]
pub struct PassCounters {
    /// Passes refused because no decode attempt was left.
    pub budget_skips: usize,
    /// Moves from Otsu to adaptive(31).
    pub otsu_to_adaptive31: usize,
    /// Moves from adaptive(31) to adaptive(21).
    pub adaptive31_to_adaptive21: usize,
    /// Decodes that succeeded on a pass after the first.
    pub fallback_successes: usize,
    /// Two-finder fallbacks started.
    pub two_finder_attempts: usize,
    /// Two-finder fallbacks that decoded.
    pub two_finder_successes: usize,
    /// Most finder patterns seen in one pass.
    pub finder_patterns_found: usize,
    /// Region retries whose finder scan was started.
    pub roi_norm_attempts: usize,
    /// Region retries that decoded.
    pub roi_norm_successes: usize,
    /// Region retries skipped: the request ended without a result before
    /// the retry reached decoding.
    pub roi_norm_skipped: usize,
}

/// The stage a request's schedule is in.
#[derive(Clone, Copy, Debug, PartialEq, Eq, Structural)]
pub enum SchedulePhase {
    /// Before any pass: the expiry check after grayscale conversion, and
    /// the brightness stage for overexposed images.
    Start,
    /// The binarization and finder passes.
    Passes,
    /// Contour detection on the first binarizations, after the passes saw
    /// finder patterns but decoded nothing.
    ContourFallback,
    /// The retry on a contrast-normalized region around the finder patterns.
    Roi,
}

/// The state of a request's pass schedule.
#[derive(Clone, Copy, Debug, PartialEq, Eq, Structural)]
pub struct BudgetState {
    /// Whether the first pass is adaptive(31) (large images) rather than Otsu.
    pub first_adaptive: bool,
    /// The stage the schedule is in.
    pub phase: SchedulePhase,
    /// Index of the current pass (of the passes, or of the fallback).
    pub pass: usize,
    /// Decode attempts the request allows.
    pub candidate_limit: usize,
    /// Decode attempts used so far.
    pub decode_attempts: usize,
    /// Whether the schedule has ended.
    pub stopped: bool,
    /// Whether a decode succeeded.
    pub decoded: bool,
    /// Counters kept along the way.
    pub counters: PassCounters,
}

/// What the caller observed after the work it was last asked to do.
#[derive(Clone, Copy, Debug, PartialEq, Eq, Structural)]
pub enum BudgetEvent {
    /// The grayscale image is ready; whether the request has expired, and
    /// whether the image is overexposed.
    RequestDue { expired: bool, overexposed: bool },
    /// The brightness stage used `attempts` and decoded or not.
    BrightnessDone { attempts: usize, success: bool },
    /// The current pass is about to start; whether the request has expired
    /// (deadline passed or cancellation seen).
    PassDue { expired: bool },
    /// The pass's binarization finished; whether the request has expired.
    Binarized { expired: bool },
    /// The finder scan found `count` patterns.
    FindersFound { count: usize },
    /// Group decoding used `attempts` and decoded or not.
    GroupsDecoded { attempts: usize, success: bool },
    /// The two-finder fallback used `attempts` and decoded or not.
    TwoFinderDecoded { attempts: usize, success: bool },
    /// Contour detection is about to start; whether the request has expired.
    ContourDue { expired: bool },
    /// Contour detection found `count` patterns.
    ContoursFound { count: usize },
    /// Group decoding of the contour patterns used `attempts` and decoded
    /// or not.
    ContourDecoded { attempts: usize, success: bool },
    /// The region retry is due: whether the request has expired (taken
    /// after the region was looked for), the difference between the
    /// brightest and darkest pixel, and whether a region around the best
    /// pass's finder patterns was found.
    RoiDue { expired: bool, contrast_span: u8, region_found: bool },
    /// The region was normalized and binarized; whether the request has
    /// expired.
    RoiBinarized { expired: bool },
}

/// The work the caller is asked to do next.
#[derive(Clone, Copy, Debug, PartialEq, Eq, Structural)]
pub enum BudgetAction {
    /// Run detection on brightness-adjusted images with at most
    /// `max_attempts` attempts, then report `BrightnessDone`.
    BrightnessDetect { max_attempts: usize },
    /// Report `PassDue` for the next pass.
    StartPass,
    /// Binarize the image with `policy`, then report `Binarized`.
    Binarize { policy: BinarizationPolicy },
    /// Scan the binary image for finder patterns, then report `FindersFound`.
    FindPatterns,
    /// Decode groups of the finder patterns with at most `max_attempts`
    /// attempts, then report `GroupsDecoded`.
    DecodeGroups { max_attempts: usize },
    /// Run the two-finder fallback with at most `max_attempts` attempts, then
    /// report `TwoFinderDecoded`.
    TwoFinderFallback { max_attempts: usize },
    /// Report `ContourDue`.
    CheckContour,
    /// Detect contour patterns, then report `ContoursFound`.
    DetectContours,
    /// Decode groups of the contour patterns with at most `max_attempts`
    /// attempts, then report `ContourDecoded`.
    DecodeContourGroups { max_attempts: usize },
    /// Look for the region around the best pass's finder patterns, then
    /// report `RoiDue`.
    CheckRoi,
    /// Normalize the contrast of the region, binarize the image adaptively
    /// (window 31), then report `RoiBinarized`.
    NormalizeRoi,
    /// Start nothing more.
    Stop,
}

/// The binarization of pass `pass`: Otsu, adaptive(31), adaptive(21) for
/// smaller images, adaptive(31), Otsu, adaptive(21) for large ones.
pub open spec fn spec_pass_policy(first_adaptive: bool, pass: int) -> BinarizationPolicy {
    if pass == 0 {
        if first_adaptive {
            BinarizationPolicy::Adaptive31
        } else {
            BinarizationPolicy::Otsu
        }
    } else if pass == 1 {
        if first_adaptive {
            BinarizationPolicy::Otsu
        } else {
            BinarizationPolicy::Adaptive31
        }
    } else {
        BinarizationPolicy::Adaptive21
    }
}

/// Decode attempts still allowed.
pub open spec fn remaining(s: BudgetState) -> int {
    s.candidate_limit - s.decode_attempts
}

/// A consistent state: no more attempts used than allowed, a pass index
/// within the schedule, and a decoded request stopped.
pub open spec fn budget_wf(s: BudgetState) -> bool {
    &&& s.decode_attempts <= s.candidate_limit
    &&& s.pass < PASS_COUNT
    &&& s.decoded ==> s.stopped
}

/// No counter of `b` is below that of `a`.
pub open spec fn counters_grow(a: PassCounters, b: PassCounters) -> bool {
    &&& a.budget_skips <= b.budget_skips
    &&& a.otsu_to_adaptive31 <= b.otsu_to_adaptive31
    &&& a.adaptive31_to_adaptive21 <= b.adaptive31_to_adaptive21
    &&& a.fallback_successes <= b.fallback_successes
    &&& a.two_finder_attempts <= b.two_finder_attempts
    &&& a.two_finder_successes <= b.two_finder_successes
    &&& a.finder_patterns_found <= b.finder_patterns_found
    &&& a.roi_norm_attempts <= b.roi_norm_attempts
    &&& a.roi_norm_successes <= b.roi_norm_successes
    &&& a.roi_norm_skipped <= b.roi_norm_skipped
}

/// Whether an event reports that the request has expired.
pub open spec fn reports_expiry(e: BudgetEvent) -> bool {
    ||| e matches BudgetEvent::RequestDue { expired, .. } && expired
    ||| e matches BudgetEvent::PassDue { expired } && expired
    ||| e matches BudgetEvent::Binarized { expired } && expired
    ||| e matches BudgetEvent::ContourDue { expired } && expired
    ||| e matches BudgetEvent::RoiDue { expired, .. } && expired
    ||| e matches BudgetEvent::RoiBinarized { expired } && expired
}

/// Counting on a `usize` counter stops at its largest value.
pub open spec fn bump(n: usize) -> usize {
    if n < usize::MAX {
        (n + 1) as usize
    } else {
        n
    }
}

/// The schedule stopped.
pub open spec fn stopped(s: BudgetState) -> (BudgetState, BudgetAction) {
    (BudgetState { stopped: true, ..s }, BudgetAction::Stop)
}

/// The request ends without a result, and its region retry counts as
/// skipped.
pub open spec fn give_up(s: BudgetState) -> (BudgetState, BudgetAction) {
    stopped(
        BudgetState {
            counters: PassCounters {
                roi_norm_skipped: bump(s.counters.roi_norm_skipped),
                ..s.counters
            },
            ..s
        },
    )
}

/// The region retry is next.
pub open spec fn roi_due(s: BudgetState) -> (BudgetState, BudgetAction) {
    (BudgetState { phase: SchedulePhase::Roi, ..s }, BudgetAction::CheckRoi)
}

/// After the last pass decoded nothing: the contour fallback where some
/// pass saw finder patterns and attempts are left, else the region retry.
pub open spec fn end_of_passes(s: BudgetState) -> (BudgetState, BudgetAction) {
    if s.counters.finder_patterns_found > 0 && remaining(s) > 0 {
        (
            BudgetState { phase: SchedulePhase::ContourFallback, pass: 0, ..s },
            BudgetAction::StartPass,
        )
    } else {
        roi_due(s)
    }
}

/// The schedule moved on to the next pass, or past the last.
pub open spec fn next_pass(s: BudgetState) -> (BudgetState, BudgetAction) {
    if s.pass + 1 < PASS_COUNT {
        (BudgetState { pass: (s.pass + 1) as usize, ..s }, BudgetAction::StartPass)
    } else {
        end_of_passes(s)
    }
}

/// The contour fallback moved on to its next binarization, or past its
/// last.
pub open spec fn next_fallback(s: BudgetState) -> (BudgetState, BudgetAction) {
    if s.pass + 1 < FALLBACK_PASSES {
        (BudgetState { pass: (s.pass + 1) as usize, ..s }, BudgetAction::StartPass)
    } else {
        roi_due(s)
    }
}

/// `used` decode attempts recorded, at most what is left.
pub open spec fn record_attempts(s: BudgetState, used: usize) -> BudgetState {
    let take = if used <= remaining(s) {
        used as int
    } else {
        remaining(s)
    };
    BudgetState { decode_attempts: (s.decode_attempts + take) as usize, ..s }
}

/// Record `used` decode attempts of a pass and whether they decoded;
/// `two_finder` marks the two-finder fallback.
pub open spec fn after_decode(s: BudgetState, used: usize, success: bool, two_finder: bool) -> (
    BudgetState,
    BudgetAction,
) {
    let s1 = record_attempts(s, used);
    if success {
        let c = s1.counters;
        let c1 = PassCounters {
            two_finder_successes: if two_finder {
                bump(c.two_finder_successes)
            } else {
                c.two_finder_successes
            },
            fallback_successes: if s.pass > 0 {
                bump(c.fallback_successes)
            } else {
                c.fallback_successes
            },
            ..c
        };
        stopped(BudgetState { decoded: true, counters: c1, ..s1 })
    } else {
        next_pass(s1)
    }
}

/// `count` finder patterns recorded as a high-water mark.
pub open spec fn record_finders(s: BudgetState, count: usize) -> BudgetState {
    BudgetState {
        counters: PassCounters {
            finder_patterns_found: if count > s.counters.finder_patterns_found {
                count
            } else {
                s.counters.finder_patterns_found
            },
            ..s.counters
        },
        ..s
    }
}

/// The first pass is next.
pub open spec fn passes_due(s: BudgetState) -> (BudgetState, BudgetAction) {
    (BudgetState { phase: SchedulePhase::Passes, pass: 0, ..s }, BudgetAction::StartPass)
}

/// A step before any pass. A request that expired before its first pass
/// ends with no counter touched.
pub open spec fn start_step(s: BudgetState, event: BudgetEvent) -> (BudgetState, BudgetAction) {
    match event {
        BudgetEvent::RequestDue { expired, overexposed } => if expired {
            stopped(s)
        } else if overexposed {
            (s, BudgetAction::BrightnessDetect { max_attempts: remaining(s) as usize })
        } else {
            passes_due(s)
        },
        BudgetEvent::BrightnessDone { attempts, success } => {
            let s1 = record_attempts(s, attempts);
            if success {
                stopped(BudgetState { decoded: true, ..s1 })
            } else {
                passes_due(s1)
            }
        },
        _ => stopped(s),
    }
}

/// A step of the binarization and finder passes.
pub open spec fn passes_step(s: BudgetState, event: BudgetEvent) -> (BudgetState, BudgetAction) {
    match event {
        BudgetEvent::PassDue { expired } => if expired {
            give_up(s)
        } else {
            let c = s.counters;
            let from = spec_pass_policy(s.first_adaptive, s.pass - 1);
            let to = spec_pass_policy(s.first_adaptive, s.pass as int);
            let c1 = if s.pass > 0 && from == BinarizationPolicy::Otsu && to
                == BinarizationPolicy::Adaptive31 {
                PassCounters { otsu_to_adaptive31: bump(c.otsu_to_adaptive31), ..c }
            } else if s.pass > 0 && from == BinarizationPolicy::Adaptive31 && to
                == BinarizationPolicy::Adaptive21 {
                PassCounters { adaptive31_to_adaptive21: bump(c.adaptive31_to_adaptive21), ..c }
            } else {
                c
            };
            if remaining(s) == 0 {
                give_up(
                    BudgetState {
                        counters: PassCounters { budget_skips: bump(c1.budget_skips), ..c1 },
                        ..s
                    },
                )
            } else {
                (BudgetState { counters: c1, ..s }, BudgetAction::Binarize { policy: to })
            }
        },
        BudgetEvent::Binarized { expired } => if expired {
            give_up(s)
        } else {
            (s, BudgetAction::FindPatterns)
        },
        BudgetEvent::FindersFound { count } => {
            let s1 = record_finders(s, count);
            if count >= 3 && count <= FINDER_PATTERN_THRESHOLD {
                (s1, BudgetAction::DecodeGroups { max_attempts: remaining(s) as usize })
            } else if count == 2 {
                (
                    BudgetState {
                        counters: PassCounters {
                            two_finder_attempts: bump(s1.counters.two_finder_attempts),
                            ..s1.counters
                        },
                        ..s1
                    },
                    BudgetAction::TwoFinderFallback { max_attempts: remaining(s) as usize },
                )
            } else if count > FINDER_PATTERN_THRESHOLD {
                (s1, BudgetAction::CheckContour)
            } else {
                next_pass(s1)
            }
        },
        BudgetEvent::GroupsDecoded { attempts, success } => after_decode(
            s,
            attempts,
            success,
            false,
        ),
        BudgetEvent::TwoFinderDecoded { attempts, success } => after_decode(
            s,
            attempts,
            success,
            true,
        ),
        BudgetEvent::ContourDue { expired } => if expired {
            give_up(s)
        } else {
            (s, BudgetAction::DetectContours)
        },
        BudgetEvent::ContoursFound { count } => if count >= 3 {
            (s, BudgetAction::DecodeContourGroups { max_attempts: remaining(s) as usize })
        } else {
            next_pass(s)
        },
        BudgetEvent::ContourDecoded { attempts, success } => after_decode(
            s,
            attempts,
            success,
            false,
        ),
        _ => stopped(s),
    }
}

/// A step of the contour fallback.
pub open spec fn fallback_step(s: BudgetState, event: BudgetEvent) -> (BudgetState, BudgetAction) {
    match event {
        BudgetEvent::PassDue { expired } => if expired || remaining(s) == 0 {
            give_up(s)
        } else {
            (s, BudgetAction::Binarize { policy: spec_pass_policy(s.first_adaptive, s.pass as int) })
        },
        BudgetEvent::Binarized { expired } => if expired {
            give_up(s)
        } else {
            (s, BudgetAction::DetectContours)
        },
        BudgetEvent::ContoursFound { count } => if 3 <= count && count <= FINDER_PATTERN_THRESHOLD {
            (s, BudgetAction::DecodeContourGroups { max_attempts: remaining(s) as usize })
        } else {
            next_fallback(s)
        },
        BudgetEvent::ContourDecoded { attempts, success } => {
            let s1 = record_attempts(s, attempts);
            if success {
                stopped(BudgetState { decoded: true, ..s1 })
            } else {
                next_fallback(s1)
            }
        },
        _ => stopped(s),
    }
}

/// A step of the region retry.
pub open spec fn roi_step(s: BudgetState, event: BudgetEvent) -> (BudgetState, BudgetAction) {
    match event {
        BudgetEvent::RoiDue { expired, contrast_span, region_found } => if expired || remaining(s)
            == 0 || contrast_span > WEAK_CONTRAST_SPAN || !region_found {
            give_up(s)
        } else {
            (s, BudgetAction::NormalizeRoi)
        },
        BudgetEvent::RoiBinarized { expired } => if expired {
            give_up(s)
        } else {
            (
                BudgetState {
                    counters: PassCounters {
                        roi_norm_attempts: bump(s.counters.roi_norm_attempts),
                        ..s.counters
                    },
                    ..s
                },
                BudgetAction::FindPatterns,
            )
        },
        BudgetEvent::FindersFound { count } => {
            let s1 = record_finders(s, count);
            if count >= 3 {
                (s1, BudgetAction::DecodeGroups { max_attempts: remaining(s) as usize })
            } else {
                give_up(s1)
            }
        },
        BudgetEvent::GroupsDecoded { attempts, success } => {
            let s1 = record_attempts(s, attempts);
            if success {
                stopped(
                    BudgetState {
                        decoded: true,
                        counters: PassCounters {
                            roi_norm_successes: bump(s1.counters.roi_norm_successes),
                            ..s1.counters
                        },
                        ..s1
                    },
                )
            } else {
                stopped(s1)
            }
        },
        _ => stopped(s),
    }
}

/// The next state and action of the schedule after `event`. An event that
/// the current stage does not expect ends the schedule.
pub open spec fn spec_budget_step(s: BudgetState, event: BudgetEvent) -> (BudgetState, BudgetAction) {
    if s.stopped {
        (s, BudgetAction::Stop)
    } else {
        match s.phase {
            SchedulePhase::Start => start_step(s, event),
            SchedulePhase::Passes => passes_step(s, event),
            SchedulePhase::ContourFallback => fallback_step(s, event),
            SchedulePhase::Roi => roi_step(s, event),
        }
    }
}

/// All counters at zero.
pub open spec fn counters_zero() -> PassCounters {
    PassCounters {
        budget_skips: 0,
        otsu_to_adaptive31: 0,
        adaptive31_to_adaptive21: 0,
        fallback_successes: 0,
        two_finder_attempts: 0,
        two_finder_successes: 0,
        finder_patterns_found: 0,
        roi_norm_attempts: 0,
        roi_norm_successes: 0,
        roi_norm_skipped: 0,
    }
}

/// The schedule of a request on a `width` by `height` image allowing
/// `candidate_limit` decode attempts: at its first pass, nothing used.
pub open spec fn spec_budget_start(width: usize, height: usize, candidate_limit: usize) -> BudgetState {
    BudgetState {
        first_adaptive: width >= 800 || height >= 800,
        phase: SchedulePhase::Start,
        pass: 0,
        candidate_limit,
        decode_attempts: 0,
        stopped: false,
        decoded: false,
        counters: counters_zero(),
    }
}

/// Start the schedule of a request; the caller reports `RequestDue` first.
pub fn budget_start(width: usize, height: usize, candidate_limit: usize) -> (s: BudgetState)
    ensures
        s == spec_budget_start(width, height, candidate_limit),
        budget_wf(s),
{
    BudgetState {
        first_adaptive: width >= 800 || height >= 800,
        phase: SchedulePhase::Start,
        pass: 0,
        candidate_limit,
        decode_attempts: 0,
        stopped: false,
        decoded: false,
        counters: PassCounters {
            budget_skips: 0,
            otsu_to_adaptive31: 0,
            adaptive31_to_adaptive21: 0,
            fallback_successes: 0,
            two_finder_attempts: 0,
            two_finder_successes: 0,
            finder_patterns_found: 0,
            roi_norm_attempts: 0,
            roi_norm_successes: 0,
            roi_norm_skipped: 0,
        },
    }
}

fn bump_exec(n: usize) -> (m: usize)
    ensures
        m == bump(n),
{
    if n < usize::MAX {
        n + 1
    } else {
        n
    }
}

fn pass_policy(first_adaptive: bool, pass: usize) -> (p: BinarizationPolicy)
    ensures
        p == spec_pass_policy(first_adaptive, pass as int),
{
    if pass == 0 {
        if first_adaptive {
            BinarizationPolicy::Adaptive31
        } else {
            BinarizationPolicy::Otsu
        }
    } else if pass == 1 {
        if first_adaptive {
            BinarizationPolicy::Otsu
        } else {
            BinarizationPolicy::Adaptive31
        }
    } else {
        BinarizationPolicy::Adaptive21
    }
}

fn stop_exec(s: BudgetState) -> (r: (BudgetState, BudgetAction))
    ensures
        r == stopped(s),
{
    (BudgetState { stopped: true, ..s }, BudgetAction::Stop)
}

fn give_up_exec(s: BudgetState) -> (r: (BudgetState, BudgetAction))
    ensures
        r == give_up(s),
{
    let c = s.counters;
    stop_exec(
        BudgetState {
            counters: PassCounters { roi_norm_skipped: bump_exec(c.roi_norm_skipped), ..c },
            ..s
        },
    )
}

fn roi_due_exec(s: BudgetState) -> (r: (BudgetState, BudgetAction))
    ensures
        r == roi_due(s),
{
    (BudgetState { phase: SchedulePhase::Roi, ..s }, BudgetAction::CheckRoi)
}

fn next_pass_exec(s: BudgetState) -> (r: (BudgetState, BudgetAction))
    requires
        budget_wf(s),
    ensures
        r == next_pass(s),
{
    if s.pass + 1 < PASS_COUNT {
        (BudgetState { pass: s.pass + 1, ..s }, BudgetAction::StartPass)
    } else if s.counters.finder_patterns_found > 0 && s.decode_attempts < s.candidate_limit {
        (
            BudgetState { phase: SchedulePhase::ContourFallback, pass: 0, ..s },
            BudgetAction::StartPass,
        )
    } else {
        roi_due_exec(s)
    }
}

fn next_fallback_exec(s: BudgetState) -> (r: (BudgetState, BudgetAction))
    requires
        budget_wf(s),
    ensures
        r == next_fallback(s),
{
    if s.pass + 1 < FALLBACK_PASSES {
        (BudgetState { pass: s.pass + 1, ..s }, BudgetAction::StartPass)
    } else {
        roi_due_exec(s)
    }
}

fn record_attempts_exec(s: BudgetState, used: usize) -> (r: BudgetState)
    requires
        budget_wf(s),
    ensures
        r == record_attempts(s, used),
{
    let left = s.candidate_limit - s.decode_attempts;
    let take = if used <= left {
        used
    } else {
        left
    };
    BudgetState { decode_attempts: s.decode_attempts + take, ..s }
}

fn record_finders_exec(s: BudgetState, count: usize) -> (r: BudgetState)
    ensures
        r == record_finders(s, count),
{
    let c = s.counters;
    BudgetState {
        counters: PassCounters {
            finder_patterns_found: if count > c.finder_patterns_found {
                count
            } else {
                c.finder_patterns_found
            },
            ..c
        },
        ..s
    }
}

fn after_decode_exec(s: BudgetState, used: usize, success: bool, two_finder: bool) -> (r: (
    BudgetState,
    BudgetAction,
))
    requires
        budget_wf(s),
    ensures
        r == after_decode(s, used, success, two_finder),
{
    let s1 = record_attempts_exec(s, used);
    if success {
        let c = s1.counters;
        let c1 = PassCounters {
            two_finder_successes: if two_finder {
                bump_exec(c.two_finder_successes)
            } else {
                c.two_finder_successes
            },
            fallback_successes: if s.pass > 0 {
                bump_exec(c.fallback_successes)
            } else {
                c.fallback_successes
            },
            ..c
        };
        stop_exec(BudgetState { decoded: true, counters: c1, ..s1 })
    } else {
        next_pass_exec(s1)
    }
}

fn start_step_exec(s: BudgetState, event: BudgetEvent) -> (r: (BudgetState, BudgetAction))
    requires
        budget_wf(s),
    ensures
        r == start_step(s, event),
{
    match event {
        BudgetEvent::RequestDue { expired, overexposed } => {
            if expired {
                stop_exec(s)
            } else if overexposed {
                let left = s.candidate_limit - s.decode_attempts;
                (s, BudgetAction::BrightnessDetect { max_attempts: left })
            } else {
                (BudgetState { phase: SchedulePhase::Passes, pass: 0, ..s }, BudgetAction::StartPass)
            }
        },
        BudgetEvent::BrightnessDone { attempts, success } => {
            let s1 = record_attempts_exec(s, attempts);
            if success {
                stop_exec(BudgetState { decoded: true, ..s1 })
            } else {
                (BudgetState { phase: SchedulePhase::Passes, pass: 0, ..s1 }, BudgetAction::StartPass)
            }
        },
        _ => stop_exec(s),
    }
}

fn passes_step_exec(s: BudgetState, event: BudgetEvent) -> (r: (BudgetState, BudgetAction))
    requires
        budget_wf(s),
    ensures
        r == passes_step(s, event),
{
    match event {
        BudgetEvent::PassDue { expired } => {
            if expired {
                return give_up_exec(s);
            }
            let c = s.counters;
            let to = pass_policy(s.first_adaptive, s.pass);
            let c1 = if s.pass > 0 {
                let from = pass_policy(s.first_adaptive, s.pass - 1);
                if from == BinarizationPolicy::Otsu && to == BinarizationPolicy::Adaptive31 {
                    PassCounters { otsu_to_adaptive31: bump_exec(c.otsu_to_adaptive31), ..c }
                } else if from == BinarizationPolicy::Adaptive31 && to
                    == BinarizationPolicy::Adaptive21 {
                    PassCounters {
                        adaptive31_to_adaptive21: bump_exec(c.adaptive31_to_adaptive21),
                        ..c
                    }
                } else {
                    c
                }
            } else {
                c
            };
            if s.decode_attempts == s.candidate_limit {
                give_up_exec(
                    BudgetState {
                        counters: PassCounters { budget_skips: bump_exec(c1.budget_skips), ..c1 },
                        ..s
                    },
                )
            } else {
                (BudgetState { counters: c1, ..s }, BudgetAction::Binarize { policy: to })
            }
        },
        BudgetEvent::Binarized { expired } => {
            if expired {
                give_up_exec(s)
            } else {
                (s, BudgetAction::FindPatterns)
            }
        },
        BudgetEvent::FindersFound { count } => {
            let s1 = record_finders_exec(s, count);
            let left = s.candidate_limit - s.decode_attempts;
            if count >= 3 && count <= FINDER_PATTERN_THRESHOLD {
                (s1, BudgetAction::DecodeGroups { max_attempts: left })
            } else if count == 2 {
                let c1 = s1.counters;
                (
                    BudgetState {
                        counters: PassCounters {
                            two_finder_attempts: bump_exec(c1.two_finder_attempts),
                            ..c1
                        },
                        ..s1
                    },
                    BudgetAction::TwoFinderFallback { max_attempts: left },
                )
            } else if count > FINDER_PATTERN_THRESHOLD {
                (s1, BudgetAction::CheckContour)
            } else {
                next_pass_exec(s1)
            }
        },
        BudgetEvent::GroupsDecoded { attempts, success } => after_decode_exec(
            s,
            attempts,
            success,
            false,
        ),
        BudgetEvent::TwoFinderDecoded { attempts, success } => after_decode_exec(
            s,
            attempts,
            success,
            true,
        ),
        BudgetEvent::ContourDue { expired } => {
            if expired {
                give_up_exec(s)
            } else {
                (s, BudgetAction::DetectContours)
            }
        },
        BudgetEvent::ContoursFound { count } => {
            if count >= 3 {
                let left = s.candidate_limit - s.decode_attempts;
                (s, BudgetAction::DecodeContourGroups { max_attempts: left })
            } else {
                next_pass_exec(s)
            }
        },
        BudgetEvent::ContourDecoded { attempts, success } => after_decode_exec(
            s,
            attempts,
            success,
            false,
        ),
        _ => stop_exec(s),
    }
}

fn fallback_step_exec(s: BudgetState, event: BudgetEvent) -> (r: (BudgetState, BudgetAction))
    requires
        budget_wf(s),
    ensures
        r == fallback_step(s, event),
{
    match event {
        BudgetEvent::PassDue { expired } => {
            if expired || s.decode_attempts == s.candidate_limit {
                give_up_exec(s)
            } else {
                (s, BudgetAction::Binarize { policy: pass_policy(s.first_adaptive, s.pass) })
            }
        },
        BudgetEvent::Binarized { expired } => {
            if expired {
                give_up_exec(s)
            } else {
                (s, BudgetAction::DetectContours)
            }
        },
        BudgetEvent::ContoursFound { count } => {
            if 3 <= count && count <= FINDER_PATTERN_THRESHOLD {
                let left = s.candidate_limit - s.decode_attempts;
                (s, BudgetAction::DecodeContourGroups { max_attempts: left })
            } else {
                next_fallback_exec(s)
            }
        },
        BudgetEvent::ContourDecoded { attempts, success } => {
            let s1 = record_attempts_exec(s, attempts);
            if success {
                stop_exec(BudgetState { decoded: true, ..s1 })
            } else {
                next_fallback_exec(s1)
            }
        },
        _ => stop_exec(s),
    }
}

fn roi_step_exec(s: BudgetState, event: BudgetEvent) -> (r: (BudgetState, BudgetAction))
    requires
        budget_wf(s),
    ensures
        r == roi_step(s, event),
{
    match event {
        BudgetEvent::RoiDue { expired, contrast_span, region_found } => {
            if expired || s.decode_attempts == s.candidate_limit || contrast_span
                > WEAK_CONTRAST_SPAN || !region_found {
                give_up_exec(s)
            } else {
                (s, BudgetAction::NormalizeRoi)
            }
        },
        BudgetEvent::RoiBinarized { expired } => {
            if expired {
                give_up_exec(s)
            } else {
                let c = s.counters;
                (
                    BudgetState {
                        counters: PassCounters {
                            roi_norm_attempts: bump_exec(c.roi_norm_attempts),
                            ..c
                        },
                        ..s
                    },
                    BudgetAction::FindPatterns,
                )
            }
        },
        BudgetEvent::FindersFound { count } => {
            let s1 = record_finders_exec(s, count);
            if count >= 3 {
                let left = s.candidate_limit - s.decode_attempts;
                (s1, BudgetAction::DecodeGroups { max_attempts: left })
            } else {
                give_up_exec(s1)
            }
        },
        BudgetEvent::GroupsDecoded { attempts, success } => {
            let s1 = record_attempts_exec(s, attempts);
            if success {
                let c = s1.counters;
                stop_exec(
                    BudgetState {
                        decoded: true,
                        counters: PassCounters {
                            roi_norm_successes: bump_exec(c.roi_norm_successes),
                            ..c
                        },
                        ..s1
                    },
                )
            } else {
                stop_exec(s1)
            }
        },
        _ => stop_exec(s),
    }
}

/// One step of the pass schedule: the state after `event` and the work to
/// do next. The expiry check and the brightness stage come first, then the
/// passes, then, where they decoded nothing, the contour fallback and the
/// region retry. Once the request has expired no pass, scan or decode is
/// started; a request expired before its first pass touches no counter; decode attempts never exceed the request's limit (attempts
/// reported beyond what was allowed are not counted); counters only grow;
/// a stopped schedule stays stopped.
#[verifier::rlimit(40)]
pub fn budget_step(state: &BudgetState, event: BudgetEvent) -> (r: (BudgetState, BudgetAction))
    requires
        budget_wf(*state),
    ensures
        r == spec_budget_step(*state, event),
        budget_wf(r.0),
        r.0.candidate_limit == state.candidate_limit,
        r.0.decode_attempts >= state.decode_attempts,
        counters_grow(state.counters, r.0.counters),
        reports_expiry(event) ==> r.1 == BudgetAction::Stop && r.0.stopped,
        state.stopped ==> r.1 == BudgetAction::Stop && r.0 == *state,
        r.1 == BudgetAction::Stop <==> r.0.stopped,
        state.phase == SchedulePhase::Start && reports_expiry(event) ==> r.0.counters
            == state.counters && r.0.decode_attempts == state.decode_attempts,
{
    let s = *state;
    if s.stopped {
        return (s, BudgetAction::Stop);
    }
    match s.phase {
        SchedulePhase::Start => start_step_exec(s, event),
        SchedulePhase::Passes => passes_step_exec(s, event),
        SchedulePhase::ContourFallback => fallback_step_exec(s, event),
        SchedulePhase::Roi => roi_step_exec(s, event),
    }
}

} // verus!
