//! Request-scoped options: the recovery preset, the cooperative deadline, the
//! attempt budgets, diagnostics and cancellation of one decoding request.

use vstd::prelude::*;
use crate::cancellation::CancellationToken;
use std::time::Duration;

verus! {

/// The `Duration` that `Duration::from_millis` builds from `ms`.
pub uninterp spec fn duration_from_millis(ms: u64) -> Duration;

/// Calls `std::time::Duration::from_millis`, which is a pure function of its
/// argument; the result is named `duration_from_millis(ms)`.
/// `Duration` is `Copy`: its `clone` returns the same value.
pub assume_specification[<Duration as Clone>::clone](d: &Duration) -> (r: Duration)
    ensures
        r == *d,
;

/// The total nanoseconds of a `Duration`, as `Duration::as_nanos` gives them.
pub uninterp spec fn duration_nanos(d: Duration) -> u128;

/// Calls `Duration::from_millis`: the duration is `ms` milliseconds, that is
/// `ms` times a million nanoseconds.
#[verifier::external_body]
fn millis(ms: u64) -> (d: Duration)
    ensures
        d == duration_from_millis(ms),
        duration_nanos(d) == ms * 1_000_000,
{
    Duration::from_millis(ms)
}

/// Recovery effort selected for a decoding request.
#[derive(Debug, Clone, Copy, PartialEq, Eq, Structural)]
pub enum DecoderPreset {
    /// Prefer a quick answer for interactive scanning.
    Fast,
    /// Use the normal recovery budget.
    Balanced,
    /// Allow additional time for batch or archival scanning.
    Exhaustive,
}

impl Default for DecoderPreset {
    fn default() -> (p: Self)
        ensures
            p == DecoderPreset::Balanced,
    {
        DecoderPreset::Balanced
    }
}

/// The deadline of a preset, in milliseconds.
pub open spec fn preset_deadline_millis(p: DecoderPreset) -> u64 {
    match p {
        DecoderPreset::Fast => 250,
        DecoderPreset::Balanced => 2000,
        DecoderPreset::Exhaustive => 10000,
    }
}

/// The candidate decode attempts a preset allows.
pub open spec fn preset_candidate_limit(p: DecoderPreset) -> usize {
    match p {
        DecoderPreset::Fast => 16,
        DecoderPreset::Balanced => 128,
        DecoderPreset::Exhaustive => 512,
    }
}

/// The erasure-recovery attempts a preset allows.
pub open spec fn preset_erasure_limit(p: DecoderPreset) -> usize {
    match p {
        DecoderPreset::Fast => 4,
        DecoderPreset::Balanced => 16,
        DecoderPreset::Exhaustive => 64,
    }
}

/// A higher preset allows strictly more time, candidates and erasure
/// attempts than a lower one.
pub proof fn lemma_presets_are_ordered()
    ensures
        preset_deadline_millis(DecoderPreset::Fast) < preset_deadline_millis(
            DecoderPreset::Balanced,
        ) < preset_deadline_millis(DecoderPreset::Exhaustive),
        preset_candidate_limit(DecoderPreset::Fast) < preset_candidate_limit(
            DecoderPreset::Balanced,
        ) < preset_candidate_limit(DecoderPreset::Exhaustive),
        preset_erasure_limit(DecoderPreset::Fast) < preset_erasure_limit(DecoderPreset::Balanced)
            < preset_erasure_limit(DecoderPreset::Exhaustive),
{
}

/// Options made from a lower preset have a strictly earlier deadline than
/// options made from a higher one: 250 ms, 2 s, 10 s.
pub proof fn lemma_preset_deadlines_ordered(
    fast: DecoderOptions,
    balanced: DecoderOptions,
    exhaustive: DecoderOptions,
)
    requires
        duration_nanos(fast.spec_deadline()) == preset_deadline_millis(DecoderPreset::Fast) * 1_000_000,
        duration_nanos(balanced.spec_deadline()) == preset_deadline_millis(DecoderPreset::Balanced)
            * 1_000_000,
        duration_nanos(exhaustive.spec_deadline()) == preset_deadline_millis(DecoderPreset::Exhaustive)
            * 1_000_000,
    ensures
        duration_nanos(fast.spec_deadline()) < duration_nanos(balanced.spec_deadline())
            < duration_nanos(exhaustive.spec_deadline()),
{
}

/// Immutable options for one decoding request.
#[derive(Debug, Clone)]
pub struct DecoderOptions {
    preset: DecoderPreset,
    deadline: Duration,
    candidate_limit: usize,
    erasure_attempt_limit: usize,
    diagnostics: bool,
    cancellation: Option<CancellationToken>,
}

impl DecoderOptions {
    /// The selected preset.
    pub closed spec fn spec_preset(&self) -> DecoderPreset {
        self.preset
    }

    /// The cooperative deadline.
    pub closed spec fn spec_deadline(&self) -> Duration {
        self.deadline
    }

    /// The candidate decode attempts allowed.
    pub closed spec fn spec_candidate_limit(&self) -> usize {
        self.candidate_limit
    }

    /// The erasure-recovery attempts allowed.
    pub closed spec fn spec_erasure_limit(&self) -> usize {
        self.erasure_attempt_limit
    }

    /// Whether diagnostics are requested.
    pub closed spec fn spec_diagnostics(&self) -> bool {
        self.diagnostics
    }

    /// The cancellation token, if any.
    pub closed spec fn spec_cancellation(&self) -> Option<CancellationToken> {
        self.cancellation
    }

    /// All fields but the one a builder sets are those of `other`.
    pub open spec fn same_except_deadline(&self, other: &Self) -> bool {
        &&& self.spec_preset() == other.spec_preset()
        &&& self.spec_candidate_limit() == other.spec_candidate_limit()
        &&& self.spec_erasure_limit() == other.spec_erasure_limit()
        &&& self.spec_diagnostics() == other.spec_diagnostics()
        &&& self.spec_cancellation() == other.spec_cancellation()
    }

    /// Options of `preset`: its deadline and budgets, no diagnostics, no
    /// cancellation.
    pub fn with_preset(preset: DecoderPreset) -> (o: Self)
        ensures
            o.spec_preset() == preset,
            o.spec_deadline() == duration_from_millis(preset_deadline_millis(preset)),
            duration_nanos(o.spec_deadline()) == preset_deadline_millis(preset) * 1_000_000,
            o.spec_candidate_limit() == preset_candidate_limit(preset),
            o.spec_erasure_limit() == preset_erasure_limit(preset),
            !o.spec_diagnostics(),
            o.spec_cancellation().is_none(),
    {
        let (deadline_ms, candidate_limit, erasure_attempt_limit): (u64, usize, usize) =
            match preset {
            DecoderPreset::Fast => (250, 16, 4),
            DecoderPreset::Balanced => (2000, 128, 16),
            DecoderPreset::Exhaustive => (10000, 512, 64),
        };
        DecoderOptions {
            preset,
            deadline: millis(deadline_ms),
            candidate_limit,
            erasure_attempt_limit,
            diagnostics: false,
            cancellation: None,
        }
    }

    /// Set a cooperative deadline for this request.
    pub fn with_deadline(self, deadline: Duration) -> (o: Self)
        ensures
            o.spec_deadline() == deadline,
            o.same_except_deadline(&self),
    {
        let mut o = self;
        o.deadline = deadline;
        o
    }

    /// Set the maximum number of candidate decode attempts; zero performs no
    /// candidate decoding.
    pub fn with_candidate_limit(self, candidate_limit: usize) -> (o: Self)
        ensures
            o.spec_candidate_limit() == candidate_limit,
            o.spec_preset() == self.spec_preset(),
            o.spec_deadline() == self.spec_deadline(),
            o.spec_erasure_limit() == self.spec_erasure_limit(),
            o.spec_diagnostics() == self.spec_diagnostics(),
            o.spec_cancellation() == self.spec_cancellation(),
    {
        let mut o = self;
        o.candidate_limit = candidate_limit;
        o
    }

    /// Set the maximum number of erasure-recovery attempts shared by all
    /// candidates of the request; zero disables that recovery path.
    pub fn with_erasure_attempt_limit(self, erasure_attempt_limit: usize) -> (o: Self)
        ensures
            o.spec_erasure_limit() == erasure_attempt_limit,
            o.spec_preset() == self.spec_preset(),
            o.spec_deadline() == self.spec_deadline(),
            o.spec_candidate_limit() == self.spec_candidate_limit(),
            o.spec_diagnostics() == self.spec_diagnostics(),
            o.spec_cancellation() == self.spec_cancellation(),
    {
        let mut o = self;
        o.erasure_attempt_limit = erasure_attempt_limit;
        o
    }

    /// Request stage diagnostics in the returned result.
    pub fn with_diagnostics(self, enabled: bool) -> (o: Self)
        ensures
            o.spec_diagnostics() == enabled,
            o.spec_preset() == self.spec_preset(),
            o.spec_deadline() == self.spec_deadline(),
            o.spec_candidate_limit() == self.spec_candidate_limit(),
            o.spec_erasure_limit() == self.spec_erasure_limit(),
            o.spec_cancellation() == self.spec_cancellation(),
    {
        let mut o = self;
        o.diagnostics = enabled;
        o
    }

    /// Stop this request when the supplied token is cancelled.
    pub fn with_cancellation(self, cancellation: CancellationToken) -> (o: Self)
        ensures
            o.spec_cancellation() == Some(cancellation),
            o.spec_preset() == self.spec_preset(),
            o.spec_deadline() == self.spec_deadline(),
            o.spec_candidate_limit() == self.spec_candidate_limit(),
            o.spec_erasure_limit() == self.spec_erasure_limit(),
            o.spec_diagnostics() == self.spec_diagnostics(),
    {
        let mut o = self;
        o.cancellation = Some(cancellation);
        o
    }

    /// The selected recovery preset.
    pub fn preset(&self) -> (p: DecoderPreset)
        ensures
            p == self.spec_preset(),
    {
        self.preset
    }

    /// The cooperative request deadline.
    pub fn deadline(&self) -> (d: Duration)
        ensures
            d == self.spec_deadline(),
    {
        self.deadline
    }

    /// Maximum candidate decode attempts available to this request.
    pub fn candidate_limit(&self) -> (n: usize)
        ensures
            n == self.spec_candidate_limit(),
    {
        self.candidate_limit
    }

    /// Maximum erasure-recovery attempts for this request.
    pub fn erasure_attempt_limit(&self) -> (n: usize)
        ensures
            n == self.spec_erasure_limit(),
    {
        self.erasure_attempt_limit
    }

    /// Whether diagnostics are collected for this request.
    pub fn diagnostics_enabled(&self) -> (b: bool)
        ensures
            b == self.spec_diagnostics(),
    {
        self.diagnostics
    }

    /// A handle on the request's cancellation token, if it has one; the
    /// handle shares the token's flag.
    pub fn cancellation(&self) -> (token: Option<CancellationToken>)
        ensures
            token is Some == self.spec_cancellation() is Some,
    {
        match &self.cancellation {
            Some(t) => Some(t.clone()),
            None => None,
        }
    }

    /// Whether the request's cancellation token has been cancelled; always
    /// `false` without a token.
    pub fn is_cancelled(&self) -> (b: bool)
        ensures
            self.spec_cancellation().is_none() ==> !b,
    {
        match &self.cancellation {
            Some(token) => token.is_cancelled(),
            None => false,
        }
    }
}

impl Default for DecoderOptions {
    fn default() -> (o: Self)
        ensures
            o.spec_preset() == DecoderPreset::Balanced,
            o.spec_deadline() == duration_from_millis(2000),
            duration_nanos(o.spec_deadline()) == 2_000_000_000,
            o.spec_candidate_limit() == 128,
            o.spec_erasure_limit() == 16,
            !o.spec_diagnostics(),
            o.spec_cancellation().is_none(),
    {
        Self::with_preset(DecoderPreset::Balanced)
    }
}

/// The furthest stage reached by a request that did not decode a QR code.
#[derive(Debug, Clone, Copy, PartialEq, Eq, Structural)]
pub enum FailureStage {
    /// The image description was invalid.
    InvalidInput,
    /// The cooperative deadline elapsed.
    Timeout,
    /// The caller cancelled the request through its request-scoped token.
    Cancelled,
    /// No finder-pattern candidate was detected.
    Detection,
    /// Candidates were found but no usable geometry was built.
    Geometry,
    /// Geometry was sampled but error correction never succeeded.
    ReedSolomon,
    /// Error correction succeeded but no payload could be parsed.
    Payload,
    /// Error correction succeeded but the payload contains a QR mode this
    /// library does not support.
    UnsupportedContent,
}

/// The furthest stage a detection run reached without a result, from its
/// counters: fewer than two finder patterns is a detection failure; no
/// geometry built a geometry failure; any unsupported content that; no
/// successful error correction a Reed-Solomon failure; otherwise the
/// payload could not be parsed.
pub open spec fn spec_failure_stage(
    finder_patterns_found: usize,
    transforms_built: usize,
    unsupported_content: usize,
    rs_decode_ok: usize,
) -> FailureStage {
    if finder_patterns_found < 2 {
        FailureStage::Detection
    } else if transforms_built == 0 {
        FailureStage::Geometry
    } else if unsupported_content > 0 {
        FailureStage::UnsupportedContent
    } else if rs_decode_ok == 0 {
        FailureStage::ReedSolomon
    } else {
        FailureStage::Payload
    }
}

/// Classify where a detection run that found nothing stopped.
pub fn classify_failure_stage(
    finder_patterns_found: usize,
    transforms_built: usize,
    unsupported_content: usize,
    rs_decode_ok: usize,
) -> (stage: FailureStage)
    ensures
        stage == spec_failure_stage(
            finder_patterns_found,
            transforms_built,
            unsupported_content,
            rs_decode_ok,
        ),
{
    if finder_patterns_found < 2 {
        FailureStage::Detection
    } else if transforms_built == 0 {
        FailureStage::Geometry
    } else if unsupported_content > 0 {
        FailureStage::UnsupportedContent
    } else if rs_decode_ok == 0 {
        FailureStage::ReedSolomon
    } else {
        FailureStage::Payload
    }
}

} // verus!
