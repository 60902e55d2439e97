//! The integer plan of decoding ranked finder groups: how many groups are
//! considered, the decode and transform budgets a request allows for a
//! strategy, how many candidates each spatial region may try, and the order
//! in which regions take turns, and the step function that walks a request
//! through its first candidate and the region turns within those budgets.

use vstd::prelude::*;
use crate::pipeline::routing::{
    ConfidenceLane, DEFAULT_MAX_REGIONS, DENSE_MAX_GROUP_CANDIDATES, LaneBudget, StrategyProfile,
    lane_remaining, matrix_recovery_allowed,
};

verus! {

/// Groups considered when the scene is not dense.
pub const MAX_GROUP_CANDIDATES: usize = 40;

/// More finder patterns than this make a scene dense.
pub const SPATIAL_GROUP_TRIGGER: usize = 12;

/// Decode attempts allowed by default.
pub const DEFAULT_MAX_DECODE_ATTEMPTS: usize = 48;

/// Perspective transforms allowed by default.
pub const DEFAULT_MAX_TRANSFORMS: usize = 24;

/// Candidates each region tries by default.
pub const DEFAULT_PER_REGION_TOP_K: usize = 4;

/// Largest budget of the dense strategy.
pub const DENSE_MAX_BUDGET: usize = 512;

/// A dense strategy with at least this many regions takes regions in turn,
/// breadth first.
pub const BREADTH_FIRST_MIN_REGIONS: usize = 40;

/// How many of `ranked` groups are considered for `patterns` finder
/// patterns: all of them, up to 128 in a dense scene and 40 otherwise.
pub open spec fn spec_considered(patterns: usize, ranked: usize) -> usize {
    let limit = if patterns > SPATIAL_GROUP_TRIGGER {
        DENSE_MAX_GROUP_CANDIDATES
    } else {
        MAX_GROUP_CANDIDATES
    };
    if ranked < limit {
        ranked
    } else {
        limit
    }
}

/// The number of ranked groups considered.
pub fn considered_groups(patterns: usize, ranked: usize) -> (n: usize)
    ensures
        n == spec_considered(patterns, ranked),
{
    let limit = if patterns > SPATIAL_GROUP_TRIGGER {
        DENSE_MAX_GROUP_CANDIDATES
    } else {
        MAX_GROUP_CANDIDATES
    };
    if ranked < limit {
        ranked
    } else {
        limit
    }
}

/// The smaller of two counts.
pub open spec fn min_usize(a: usize, b: usize) -> usize {
    if a < b {
        a
    } else {
        b
    }
}

/// The larger of two counts.
pub open spec fn max_usize(a: usize, b: usize) -> usize {
    if a > b {
        a
    } else {
        b
    }
}

/// The decode-attempt and transform budgets for `strategy` under the
/// caller's `limit`: 48 attempts and 24 transforms by default (no more
/// transforms than attempts); the dense strategy raises both to 256 (the
/// transforms at most 512); the caller's limit caps the attempts and the
/// transforms follow. `None` when no attempt is allowed before the strategy
/// is applied.
pub open spec fn spec_decode_budgets(limit: Option<usize>, strategy: StrategyProfile) -> Option<
    (usize, usize),
> {
    let a0 = match limit {
        Some(l) => min_usize(DEFAULT_MAX_DECODE_ATTEMPTS, l),
        None => DEFAULT_MAX_DECODE_ATTEMPTS,
    };
    if a0 == 0 {
        None
    } else {
        let t0 = min_usize(DEFAULT_MAX_TRANSFORMS, a0);
        let (a1, t1) = if strategy == StrategyProfile::MultiQrHeavy {
            let scaled = min_usize((DEFAULT_MAX_REGIONS * 16 * 2) as usize, DENSE_MAX_BUDGET);
            let a = max_usize(a0, scaled);
            (a, min_usize(max_usize(t0, a), DENSE_MAX_BUDGET))
        } else {
            (a0, t0)
        };
        match limit {
            Some(l) => {
                let a2 = min_usize(a1, l);
                Some((a2, min_usize(t1, a2)))
            },
            None => Some((a1, t1)),
        }
    }
}

/// The decode-attempt and transform budgets of a request. Never more
/// attempts than the caller's limit, and never more transforms than
/// attempts.
pub fn decode_budgets(limit: Option<usize>, strategy: StrategyProfile) -> (b: Option<(usize, usize)>)
    ensures
        b == spec_decode_budgets(limit, strategy),
        b matches Some((attempts, transforms)) ==> 0 < transforms <= attempts,
        b matches Some((attempts, _)) ==> (limit matches Some(l) ==> attempts <= l),
        b is None <==> limit == Some(0usize),
{
    let a0 = match limit {
        Some(l) => if l < DEFAULT_MAX_DECODE_ATTEMPTS {
            l
        } else {
            DEFAULT_MAX_DECODE_ATTEMPTS
        },
        None => DEFAULT_MAX_DECODE_ATTEMPTS,
    };
    if a0 == 0 {
        return None;
    }
    let t0 = if DEFAULT_MAX_TRANSFORMS < a0 {
        DEFAULT_MAX_TRANSFORMS
    } else {
        a0
    };
    let (a1, t1) = match strategy {
        StrategyProfile::MultiQrHeavy => {
            let scaled: usize = DEFAULT_MAX_REGIONS * 16 * 2;
            let scaled = if scaled < DENSE_MAX_BUDGET {
                scaled
            } else {
                DENSE_MAX_BUDGET
            };
            let a = if a0 > scaled {
                a0
            } else {
                scaled
            };
            let t = if t0 > a {
                t0
            } else {
                a
            };
            (
                a,
                if t < DENSE_MAX_BUDGET {
                    t
                } else {
                    DENSE_MAX_BUDGET
                },
            )
        },
        _ => (a0, t0),
    };
    match limit {
        Some(l) => {
            let a2 = if a1 < l {
                a1
            } else {
                l
            };
            Some((
                a2,
                if t1 < a2 {
                    t1
                } else {
                    a2
                },
            ))
        },
        None => Some((a1, t1)),
    }
}

/// Candidates each region may try (`top_k`) and attempts each region may
/// make (`cap`) for `strategy`, with `top_k_limit` the decode top-k of the
/// considered groups, `regions` the regions found and `remaining` the
/// attempts left after the first candidate.
pub open spec fn spec_region_caps(
    strategy: StrategyProfile,
    top_k_limit: usize,
    regions: usize,
    remaining: usize,
) -> (usize, usize) {
    let (k0, c0) = match strategy {
        StrategyProfile::MultiQrHeavy => (16usize, 48usize),
        StrategyProfile::HighVersionPrecision => (DEFAULT_PER_REGION_TOP_K, 2usize),
        StrategyProfile::LowContrastRecovery => (3usize, 3usize),
        _ => (DEFAULT_PER_REGION_TOP_K, 3usize),
    };
    let k1 = min_usize(k0, top_k_limit);
    if strategy == StrategyProfile::MultiQrHeavy && regions <= 1 {
        (max_usize(k1, min_usize(remaining, 64)), max_usize(c0, min_usize(remaining, 128)))
    } else {
        (k1, c0)
    }
}

/// The per-region candidate and attempt caps.
pub fn region_caps(strategy: StrategyProfile, top_k_limit: usize, regions: usize, remaining: usize) -> (r: (
    usize,
    usize,
))
    ensures
        r == spec_region_caps(strategy, top_k_limit, regions, remaining),
{
    let (k0, c0): (usize, usize) = match strategy {
        StrategyProfile::MultiQrHeavy => (16, 48),
        StrategyProfile::HighVersionPrecision => (DEFAULT_PER_REGION_TOP_K, 2),
        StrategyProfile::LowContrastRecovery => (3, 3),
        _ => (DEFAULT_PER_REGION_TOP_K, 3),
    };
    let k1 = if k0 < top_k_limit {
        k0
    } else {
        top_k_limit
    };
    let dense = match strategy {
        StrategyProfile::MultiQrHeavy => true,
        _ => false,
    };
    if dense && regions <= 1 {
        let r64 = if remaining < 64 {
            remaining
        } else {
            64
        };
        let r128 = if remaining < 128 {
            remaining
        } else {
            128
        };
        (if k1 > r64 {
            k1
        } else {
            r64
        }, if c0 > r128 {
            c0
        } else {
            r128
        })
    } else {
        (k1, c0)
    }
}

/// The turns of the region schedule, as `(attempt, region)`: region by
/// region, each making `per_region` attempts, or, when `breadth_first`, the
/// first attempt of every region, then the second, and so on.
pub open spec fn spec_region_schedule(regions: usize, per_region: usize, breadth_first: bool) -> Seq<
    (usize, usize),
> {
    Seq::new(
        (regions * per_region) as nat,
        |i: int|
            if breadth_first {
                ((i / (regions as int)) as usize, (i % (regions as int)) as usize)
            } else {
                ((i % (per_region as int)) as usize, (i / (per_region as int)) as usize)
            },
    )
}

/// Whether the dense strategy takes its `regions` in turn, breadth first.
pub open spec fn spec_breadth_first(strategy: StrategyProfile, regions: usize) -> bool {
    strategy == StrategyProfile::MultiQrHeavy && regions >= BREADTH_FIRST_MIN_REGIONS
}

/// The region schedule for `strategy`: breadth first for the dense
/// strategy with at least `BREADTH_FIRST_MIN_REGIONS` regions, region by
/// region otherwise.
pub fn region_schedule(strategy: StrategyProfile, regions: usize, per_region: usize) -> (schedule: Vec<
    (usize, usize),
>)
    requires
        regions * per_region <= usize::MAX,
    ensures
        schedule@ == spec_region_schedule(regions, per_region, spec_breadth_first(strategy, regions)),
{
    let breadth_first = match strategy {
        StrategyProfile::MultiQrHeavy => regions >= BREADTH_FIRST_MIN_REGIONS,
        _ => false,
    };
    let ghost target = spec_region_schedule(regions, per_region, breadth_first);
    let mut schedule: Vec<(usize, usize)> = Vec::new();
    let (outer, inner) = if breadth_first {
        (per_region, regions)
    } else {
        (regions, per_region)
    };
    proof {
        assert(per_region * regions == regions * per_region) by (nonlinear_arith);
    }
    let mut o: usize = 0;
    while o < outer
        invariant
            outer * inner == regions * per_region,
            regions * per_region <= usize::MAX,
            breadth_first ==> outer == per_region && inner == regions,
            !breadth_first ==> outer == regions && inner == per_region,
            target == spec_region_schedule(regions, per_region, breadth_first),
            o <= outer,
            schedule@.len() == o * inner,
            schedule@ =~= target.take(o * inner),
        decreases outer - o,
    {
        let mut n: usize = 0;
        proof {
            assert((o + 1) * inner <= outer * inner) by (nonlinear_arith)
                requires
                    o < outer,
                    inner >= 0,
            ;
            assert(o * inner + inner == (o + 1) * inner) by (nonlinear_arith);
        }
        while n < inner
            invariant
                outer * inner == regions * per_region,
                breadth_first ==> outer == per_region && inner == regions,
                !breadth_first ==> outer == regions && inner == per_region,
                target == spec_region_schedule(regions, per_region, breadth_first),
                o < outer,
                (o + 1) * inner <= outer * inner,
                o * inner + inner == (o + 1) * inner,
                n <= inner,
                schedule@.len() == o * inner + n,
                schedule@ =~= target.take(o * inner + n),
            decreases inner - n,
        {
            let ghost i = o * inner + n;
            proof {
                vstd::arithmetic::div_mod::lemma_fundamental_div_mod_converse(
                    i,
                    inner as int,
                    o as int,
                    n as int,
                );
                assert(i < (o + 1) * inner);
            }
            if breadth_first {
                schedule.push((o, n));
            } else {
                schedule.push((n, o));
            }
            proof {
                assert(target[i] == schedule@[i]);
                assert(schedule@ =~= target.take(i + 1));
            }
            n += 1;
        }
        o += 1;
    }
    proof {
        assert(outer * inner == target.len());
    }
    schedule
}


/// The first candidates decoded may use heavy recovery.
pub const HEAVY_RECOVERY_TOP_N: usize = 2;

/// Where the decoding of ranked groups stands.
#[derive(Clone, Copy, Debug, PartialEq, Eq, Structural)]
pub enum RankedStage {
    /// The top candidate is next.
    First,
    /// The top candidate is being decoded.
    FirstDecode,
    /// The regions are being planned.
    Planning,
    /// The region turns are being taken.
    Turns,
    /// A turn's candidate is being decoded.
    TurnDecode,
    Done,
}

/// The state of a ranked decode.
#[derive(Clone, Copy, Debug, PartialEq, Eq, Structural)]
pub struct RankedDecodeState {
    pub strategy: StrategyProfile,
    pub max_attempts: usize,
    pub max_transforms: usize,
    pub used_attempts: usize,
    pub used_transforms: usize,
    /// Attempts left in each confidence lane.
    pub lanes: LaneBudget,
    /// Whether decoding goes on past the top candidate.
    pub expand: bool,
    pub stage: RankedStage,
    /// The next turn of the region schedule, and how many there are.
    pub turn: usize,
    pub turns: usize,
    /// Candidates skipped because a budget was spent.
    pub budget_skips: usize,
}

/// What the caller observed.
#[derive(Clone, Copy, Debug, PartialEq, Eq, Structural)]
pub enum RankedDecodeEvent {
    /// The top candidate is in `lane`; `expand` is whether the group
    /// confidences call for going past it.
    FirstDue { lane: ConfidenceLane, expand: bool },
    /// The top candidate's decode was accepted or not, and if accepted
    /// whether its confidence is below the single-symbol floor.
    FirstDecoded { accepted: bool, low_confidence: bool },
    /// The region schedule has `turns` turns.
    RegionsPlanned { turns: usize },
    /// The current turn: whether its region has a candidate for it,
    /// whether that candidate shares a finder with an accepted symbol, and
    /// its lane.
    TurnDue { present: bool, overlaps: bool, lane: ConfidenceLane },
    /// The turn's candidate was decoded (whatever came of it).
    TurnDecoded,
}

/// The work the caller is asked to do next.
#[derive(Clone, Copy, Debug, PartialEq, Eq, Structural)]
pub enum RankedDecodeAction {
    /// Report `FirstDue`.
    CheckFirst,
    /// Decode the top candidate with these recovery permissions, then
    /// report `FirstDecoded`.
    DecodeFirst { allow_heavy: bool, allow_matrix_recovery: bool },
    /// Cluster the candidates into regions, build the region schedule and
    /// report `RegionsPlanned`.
    PlanRegions,
    /// Report `TurnDue` for turn `turn`.
    CheckTurn { turn: usize },
    /// Decode the candidate of turn `turn`, then report `TurnDecoded`.
    DecodeTurn { turn: usize, allow_heavy: bool, allow_matrix_recovery: bool },
    Stop,
}

/// A consistent state: attempts and transforms go together, within their
/// budgets, and the turn within the schedule; a turn about to be checked
/// exists and has budget left for it.
pub open spec fn ranked_wf(s: RankedDecodeState) -> bool {
    &&& s.used_attempts == s.used_transforms
    &&& s.used_transforms <= s.max_transforms <= s.max_attempts
    &&& s.turn <= s.turns
    &&& s.stage == RankedStage::Turns ==> s.turn < s.turns && budget_left(s)
}

/// A budget check failed or a lane was empty: one more budget skip.
pub open spec fn skip(s: RankedDecodeState) -> RankedDecodeState {
    RankedDecodeState {
        budget_skips: if s.budget_skips < usize::MAX {
            (s.budget_skips + 1) as usize
        } else {
            s.budget_skips
        },
        ..s
    }
}

/// The decode ended.
pub open spec fn ranked_done(s: RankedDecodeState) -> (RankedDecodeState, RankedDecodeAction) {
    (RankedDecodeState { stage: RankedStage::Done, ..s }, RankedDecodeAction::Stop)
}

/// Whether both budgets allow another attempt.
pub open spec fn budget_left(s: RankedDecodeState) -> bool {
    s.used_transforms < s.max_transforms && s.used_attempts < s.max_attempts
}

/// The next turn: stop after the last, or when a budget is spent.
pub open spec fn next_turn(s: RankedDecodeState) -> (RankedDecodeState, RankedDecodeAction) {
    if s.turn >= s.turns {
        ranked_done(s)
    } else if !budget_left(s) {
        ranked_done(skip(s))
    } else {
        (RankedDecodeState { stage: RankedStage::Turns, ..s }, RankedDecodeAction::CheckTurn { turn: s.turn })
    }
}

/// One attempt taken from `lane` (which has one left).
pub open spec fn take_attempt(s: RankedDecodeState, lane: ConfidenceLane) -> RankedDecodeState {
    RankedDecodeState {
        used_attempts: (s.used_attempts + 1) as usize,
        used_transforms: (s.used_transforms + 1) as usize,
        lanes: match lane {
            ConfidenceLane::High => LaneBudget { high: (s.lanes.high - 1) as usize, ..s.lanes },
            ConfidenceLane::Medium => LaneBudget { medium: (s.lanes.medium - 1) as usize, ..s.lanes },
            ConfidenceLane::Low => LaneBudget { low: (s.lanes.low - 1) as usize, ..s.lanes },
        },
        ..s
    }
}

/// The next state and action after `event`; an event out of turn ends the
/// decode.
pub open spec fn spec_ranked_decode_step(s: RankedDecodeState, event: RankedDecodeEvent) -> (
    RankedDecodeState,
    RankedDecodeAction,
) {
    match (s.stage, event) {
        (RankedStage::Done, _) => (s, RankedDecodeAction::Stop),
        (RankedStage::First, RankedDecodeEvent::FirstDue { lane, expand }) => {
            let s1 = RankedDecodeState {
                expand: expand || s.strategy == StrategyProfile::MultiQrHeavy,
                ..s
            };
            if !budget_left(s1) || lane_remaining(s1.lanes, lane) == 0 {
                ranked_done(skip(s1))
            } else {
                let s2 = take_attempt(s1, lane);
                let heavy = s2.used_attempts <= HEAVY_RECOVERY_TOP_N;
                (
                    RankedDecodeState { stage: RankedStage::FirstDecode, ..s2 },
                    RankedDecodeAction::DecodeFirst {
                        allow_heavy: heavy,
                        allow_matrix_recovery: s.strategy != StrategyProfile::MultiQrHeavy || heavy,
                    },
                )
            }
        },
        (RankedStage::FirstDecode, RankedDecodeEvent::FirstDecoded { accepted, low_confidence }) => {
            let expand = s.expand || (accepted && low_confidence);
            if !expand && s.strategy != StrategyProfile::MultiQrHeavy {
                ranked_done(RankedDecodeState { expand, ..s })
            } else {
                (
                    RankedDecodeState { expand, stage: RankedStage::Planning, ..s },
                    RankedDecodeAction::PlanRegions,
                )
            }
        },
        (RankedStage::Planning, RankedDecodeEvent::RegionsPlanned { turns }) => next_turn(
            RankedDecodeState { turn: 0, turns, ..s },
        ),
        (RankedStage::Turns, RankedDecodeEvent::TurnDue { present, overlaps, lane }) => {
            let s1 = RankedDecodeState { turn: (s.turn + 1) as usize, ..s };
            if !present || overlaps {
                next_turn(s1)
            } else if lane_remaining(s.lanes, lane) == 0 {
                next_turn(skip(s1))
            } else {
                let s2 = take_attempt(s1, lane);
                let heavy = s2.used_attempts <= HEAVY_RECOVERY_TOP_N;
                (
                    RankedDecodeState { stage: RankedStage::TurnDecode, ..s2 },
                    RankedDecodeAction::DecodeTurn {
                        turn: s.turn,
                        allow_heavy: heavy,
                        allow_matrix_recovery: s.strategy != StrategyProfile::MultiQrHeavy || heavy,
                    },
                )
            }
        },
        (RankedStage::TurnDecode, RankedDecodeEvent::TurnDecoded) => next_turn(s),
        _ => ranked_done(s),
    }
}

/// The start of a ranked decode with `budgets` (from `decode_budgets`) and
/// the lanes split from its attempts; the caller reports `FirstDue` first.
pub fn ranked_decode_start(strategy: StrategyProfile, budgets: (usize, usize), lanes: LaneBudget) -> (s:
    RankedDecodeState)
    requires
        budgets.1 <= budgets.0,
    ensures
        s == (RankedDecodeState {
            strategy,
            max_attempts: budgets.0,
            max_transforms: budgets.1,
            used_attempts: 0,
            used_transforms: 0,
            lanes,
            expand: false,
            stage: RankedStage::First,
            turn: 0,
            turns: 0,
            budget_skips: 0,
        }),
        ranked_wf(s),
{
    RankedDecodeState {
        strategy,
        max_attempts: budgets.0,
        max_transforms: budgets.1,
        used_attempts: 0,
        used_transforms: 0,
        lanes,
        expand: false,
        stage: RankedStage::First,
        turn: 0,
        turns: 0,
        budget_skips: 0,
    }
}

fn skip_exec(s: RankedDecodeState) -> (r: RankedDecodeState)
    ensures
        r == skip(s),
{
    RankedDecodeState {
        budget_skips: if s.budget_skips < usize::MAX {
            s.budget_skips + 1
        } else {
            s.budget_skips
        },
        ..s
    }
}

fn done_ranked(s: RankedDecodeState) -> (r: (RankedDecodeState, RankedDecodeAction))
    ensures
        r == ranked_done(s),
{
    (RankedDecodeState { stage: RankedStage::Done, ..s }, RankedDecodeAction::Stop)
}

fn lane_left(lanes: LaneBudget, lane: ConfidenceLane) -> (n: usize)
    ensures
        n == lane_remaining(lanes, lane),
{
    match lane {
        ConfidenceLane::High => lanes.high,
        ConfidenceLane::Medium => lanes.medium,
        ConfidenceLane::Low => lanes.low,
    }
}

fn take_exec(s: RankedDecodeState, lane: ConfidenceLane) -> (r: RankedDecodeState)
    requires
        budget_left(s),
        lane_remaining(s.lanes, lane) > 0,
    ensures
        r == take_attempt(s, lane),
{
    let lanes = match lane {
        ConfidenceLane::High => LaneBudget { high: s.lanes.high - 1, ..s.lanes },
        ConfidenceLane::Medium => LaneBudget { medium: s.lanes.medium - 1, ..s.lanes },
        ConfidenceLane::Low => LaneBudget { low: s.lanes.low - 1, ..s.lanes },
    };
    RankedDecodeState {
        used_attempts: s.used_attempts + 1,
        used_transforms: s.used_transforms + 1,
        lanes,
        ..s
    }
}

fn next_turn_exec(s: RankedDecodeState) -> (r: (RankedDecodeState, RankedDecodeAction))
    ensures
        r == next_turn(s),
{
    if s.turn >= s.turns {
        done_ranked(s)
    } else if !(s.used_transforms < s.max_transforms && s.used_attempts < s.max_attempts) {
        done_ranked(skip_exec(s))
    } else {
        (RankedDecodeState { stage: RankedStage::Turns, ..s }, RankedDecodeAction::CheckTurn { turn: s.turn })
    }
}

/// Progress of a ranked decode: grows with every step that does not stop.
pub open spec fn ranked_progress(s: RankedDecodeState) -> int {
    match s.stage {
        RankedStage::First => 0int,
        RankedStage::FirstDecode => 1int,
        RankedStage::Planning => 2int,
        RankedStage::Turns => 3 + 2 * s.turn,
        RankedStage::TurnDecode => 2 + 2 * s.turn,
        RankedStage::Done => -1int,
    }
}

/// One step of decoding ranked groups: the state after `event` and the work
/// to do next. Attempts and transforms are taken together and never beyond
/// their budgets, each from a lane that still has one; the top candidate is
/// the only one tried unless the groups call for more or the strategy is
/// the dense one; heavy recovery is allowed for the first
/// `HEAVY_RECOVERY_TOP_N` attempts; every turn of the schedule is visited
/// at most once; a finished decode stays finished.
pub fn ranked_decode_step(state: &RankedDecodeState, event: RankedDecodeEvent) -> (r: (
    RankedDecodeState,
    RankedDecodeAction,
))
    requires
        ranked_wf(*state),
    ensures
        r == spec_ranked_decode_step(*state, event),
        ranked_wf(r.0),
        r.0.max_attempts == state.max_attempts,
        r.0.max_transforms == state.max_transforms,
        r.0.used_attempts == state.used_attempts || r.0.used_attempts == state.used_attempts + 1,
        r.1 == RankedDecodeAction::Stop <==> r.0.stage == RankedStage::Done,
        state.stage == RankedStage::Done ==> r.0 == *state,
        r.0.stage != RankedStage::Done ==> ranked_progress(r.0) > ranked_progress(*state),
        r.1 matches RankedDecodeAction::DecodeTurn { turn, .. } ==> turn < r.0.turns && turn
            == state.turn,
        r.0.used_attempts > state.used_attempts ==> (r.1 matches RankedDecodeAction::DecodeFirst { .. }
            || r.1 matches RankedDecodeAction::DecodeTurn { .. }),
{
    let s = *state;
    match (s.stage, event) {
        (RankedStage::Done, _) => (s, RankedDecodeAction::Stop),
        (RankedStage::First, RankedDecodeEvent::FirstDue { lane, expand }) => {
            let dense = match s.strategy {
                StrategyProfile::MultiQrHeavy => true,
                _ => false,
            };
            let s1 = RankedDecodeState { expand: expand || dense, ..s };
            if !(s1.used_transforms < s1.max_transforms && s1.used_attempts < s1.max_attempts)
                || lane_left(s1.lanes, lane) == 0 {
                done_ranked(skip_exec(s1))
            } else {
                let s2 = take_exec(s1, lane);
                let heavy = s2.used_attempts <= HEAVY_RECOVERY_TOP_N;
                (
                    RankedDecodeState { stage: RankedStage::FirstDecode, ..s2 },
                    RankedDecodeAction::DecodeFirst {
                        allow_heavy: heavy,
                        allow_matrix_recovery: matrix_recovery_allowed(s.strategy, heavy),
                    },
                )
            }
        },
        (RankedStage::FirstDecode, RankedDecodeEvent::FirstDecoded { accepted, low_confidence }) => {
            let expand = s.expand || (accepted && low_confidence);
            let dense = match s.strategy {
                StrategyProfile::MultiQrHeavy => true,
                _ => false,
            };
            if !expand && !dense {
                done_ranked(RankedDecodeState { expand, ..s })
            } else {
                (
                    RankedDecodeState { expand, stage: RankedStage::Planning, ..s },
                    RankedDecodeAction::PlanRegions,
                )
            }
        },
        (RankedStage::Planning, RankedDecodeEvent::RegionsPlanned { turns }) => {
            next_turn_exec(RankedDecodeState { turn: 0, turns, ..s })
        },
        (RankedStage::Turns, RankedDecodeEvent::TurnDue { present, overlaps, lane }) => {
            let s1 = RankedDecodeState { turn: s.turn + 1, ..s };
            if !present || overlaps {
                next_turn_exec(s1)
            } else if lane_left(s.lanes, lane) == 0 {
                next_turn_exec(skip_exec(s1))
            } else {
                let s2 = take_exec(s1, lane);
                let heavy = s2.used_attempts <= HEAVY_RECOVERY_TOP_N;
                (
                    RankedDecodeState { stage: RankedStage::TurnDecode, ..s2 },
                    RankedDecodeAction::DecodeTurn {
                        turn: s.turn,
                        allow_heavy: heavy,
                        allow_matrix_recovery: matrix_recovery_allowed(s.strategy, heavy),
                    },
                )
            }
        },
        (RankedStage::TurnDecode, RankedDecodeEvent::TurnDecoded) => next_turn_exec(s),
        _ => done_ranked(s),
    }
}

} // verus!
