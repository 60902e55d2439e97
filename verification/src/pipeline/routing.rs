//! Routing decisions of the decode stage: decode strategies, confidence
//! lanes and the split of a decode-attempt budget between them.

use vstd::prelude::*;

verus! {

/// Most candidates decoded from the top of the ranking by default.
pub const DEFAULT_DECODE_TOP_K: usize = 6;

/// Upper bound of the top-k decode limit.
pub const MAX_DECODE_TOP_K: usize = 64;

/// Regions visited by every strategy but the dense one.
pub const DEFAULT_MAX_REGIONS: usize = 8;

/// Most group candidates kept in a dense scene.
pub const DENSE_MAX_GROUP_CANDIDATES: usize = 128;

/// The decode strategy chosen from fast image signals.
#[derive(Clone, Copy, Debug, PartialEq, Eq, Structural)]
pub enum StrategyProfile {
    FastSingle,
    MultiQrHeavy,
    RotationHeavy,
    HighVersionPrecision,
    LowContrastRecovery,
}

impl StrategyProfile {
    /// The strategy's name as reported in telemetry.
    pub fn as_str(self) -> (s: &'static str)
        ensures
            s@ == match self {
                StrategyProfile::FastSingle => "fast_single"@,
                StrategyProfile::MultiQrHeavy => "multi_qr_heavy"@,
                StrategyProfile::RotationHeavy => "rotation_heavy"@,
                StrategyProfile::HighVersionPrecision => "high_version_precision"@,
                StrategyProfile::LowContrastRecovery => "low_contrast_recovery"@,
            },
    {
        match self {
            StrategyProfile::FastSingle => "fast_single",
            StrategyProfile::MultiQrHeavy => "multi_qr_heavy",
            StrategyProfile::RotationHeavy => "rotation_heavy",
            StrategyProfile::HighVersionPrecision => "high_version_precision",
            StrategyProfile::LowContrastRecovery => "low_contrast_recovery",
        }
    }
}

/// How confident the geometry of a candidate is.
#[derive(Clone, Copy, Debug, PartialEq, Eq, Structural)]
pub enum ConfidenceLane {
    High,
    Medium,
    Low,
}

/// Remaining decode attempts of each confidence lane.
#[derive(Clone, Copy, Debug, PartialEq, Eq, Structural)]
pub struct LaneBudget {
    pub high: usize,
    pub medium: usize,
    pub low: usize,
}

/// The attempts left in `lane`.
pub open spec fn lane_remaining(b: LaneBudget, lane: ConfidenceLane) -> usize {
    match lane {
        ConfidenceLane::High => b.high,
        ConfidenceLane::Medium => b.medium,
        ConfidenceLane::Low => b.low,
    }
}

impl LaneBudget {
    /// Take one attempt from `lane`: `false`, and no change, when the lane is
    /// exhausted; otherwise that lane loses one attempt and the others stay.
    pub fn consume(&mut self, lane: ConfidenceLane) -> (ok: bool)
        ensures
            ok == (lane_remaining(*old(self), lane) > 0),
            forall|l: ConfidenceLane|
                #[trigger] lane_remaining(*final(self), l) == if ok && l == lane {
                    lane_remaining(*old(self), l) - 1
                } else {
                    lane_remaining(*old(self), l) as int
                },
    {
        match lane {
            ConfidenceLane::High => {
                if self.high == 0 {
                    false
                } else {
                    self.high -= 1;
                    true
                }
            },
            ConfidenceLane::Medium => {
                if self.medium == 0 {
                    false
                } else {
                    self.medium -= 1;
                    true
                }
            },
            ConfidenceLane::Low => {
                if self.low == 0 {
                    false
                } else {
                    self.low -= 1;
                    true
                }
            },
        }
    }
}

/// The split before the strategy's adjustment: half the attempts to the high
/// lane, three tenths to the medium lane, the rest low, with at least one high
/// attempt and, from three attempts on, at least one medium attempt (each
/// taken from the low lane, which does not go below zero).
pub open spec fn base_split(n: int) -> (int, int, int) {
    let h0 = n / 2;
    let m0 = (3 * n) / 10;
    let l0 = if n - (h0 + m0) > 0 { n - (h0 + m0) } else { 0 };
    let (h1, l1) = if h0 == 0 { (1, if l0 > 0 { l0 - 1 } else { 0 }) } else { (h0, l0) };
    if n >= 3 && m0 == 0 {
        (h1, 1, if l1 > 0 { l1 - 1 } else { 0 })
    } else {
        (h1, m0, l1)
    }
}

/// The strategy's adjustment of a split.
pub open spec fn strategy_shift(s: StrategyProfile, h: int, m: int, l: int) -> (int, int, int) {
    match s {
        StrategyProfile::MultiQrHeavy => if h > 1 { (h - 1, m, l + 1) } else { (h, m, l) },
        StrategyProfile::HighVersionPrecision => if l > 0 {
            (h + 1, m, l - 1)
        } else if m > 1 {
            (h + 1, m - 1, l)
        } else {
            (h, m, l)
        },
        StrategyProfile::LowContrastRecovery => if m > 0 { (h, m - 1, l + 1) } else { (h, m, l) },
        StrategyProfile::RotationHeavy => {
            let (m1, l1) = if l > 0 { (m + 1, l - 1) } else { (m, l) };
            if l1 > 0 { (h + 1, m1, l1 - 1) } else { (h, m1, l1) }
        },
        StrategyProfile::FastSingle => (h, m, l),
    }
}

/// The split after `k` attempts have been taken back: from the low lane
/// first, then the medium lane, then the high lane.
pub open spec fn take_back(h: int, m: int, l: int, k: int) -> (int, int, int) {
    let from_low = if k < l { k } else { l };
    let rest = k - from_low;
    let from_medium = if rest < m { rest } else { m };
    let rest2 = rest - from_medium;
    (if h - rest2 > 0 { h - rest2 } else { 0 }, m - from_medium, l - from_low)
}

/// Bring a split to exactly `n` attempts: any excess is taken back from the
/// low lane first, then the medium lane, then the high lane; any shortfall
/// goes to the high lane.
pub open spec fn fit_total(n: int, h: int, m: int, l: int) -> (int, int, int) {
    let excess = h + m + l - n;
    if excess > 0 {
        take_back(h, m, l, excess)
    } else {
        (h - excess, m, l)
    }
}

/// The lane budget for `n` decode attempts under strategy `s`.
pub open spec fn lane_split(n: int, s: StrategyProfile) -> (int, int, int) {
    if n <= 1 {
        (n, 0, 0)
    } else {
        let (h, m, l) = base_split(n);
        let (h2, m2, l2) = strategy_shift(s, h, m, l);
        fit_total(n, h2, m2, l2)
    }
}

fn base_lanes(n: usize) -> (r: (usize, usize, usize))
    requires
        2 <= n,
    ensures
        (r.0 as int, r.1 as int, r.2 as int) == base_split(n as int),
        r.0 + r.1 + r.2 == n,
{
    let mut high: usize = n / 2;
    let mut medium: usize = n / 10 * 3 + n % 10 * 3 / 10;
    proof {
        let q = n as int / 10;
        let r = n as int % 10;
        assert(n as int == 10 * q + r && 0 <= r < 10);
        assert((3 * (n as int)) / 10 == 3 * q + (3 * r) / 10) by (nonlinear_arith)
            requires
                n as int == 10 * q + r,
                0 <= r < 10,
        ;
        assert(n / 2 + (3 * (n as int)) / 10 <= n) by (nonlinear_arith)
            requires
                n >= 2,
        ;
        assert(n >= 4 ==> (3 * (n as int)) / 10 >= 1) by (nonlinear_arith);
    }
    let reserved = high + medium;
    let mut low: usize = n.saturating_sub(reserved);
    if high == 0 {
        high = 1;
        low = low.saturating_sub(1);
    }
    if n >= 3 && medium == 0 {
        medium = 1;
        low = low.saturating_sub(1);
    }
    (high, medium, low)
}

fn shift_lanes(strategy: StrategyProfile, h: usize, m: usize, l: usize) -> (r: (usize, usize, usize))
    requires
        h + m + l <= usize::MAX,
    ensures
        (r.0 as int, r.1 as int, r.2 as int) == strategy_shift(strategy, h as int, m as int, l as int),
        r.0 + r.1 + r.2 == h + m + l,
{
    let mut high = h;
    let mut medium = m;
    let mut low = l;
    match strategy {
        StrategyProfile::MultiQrHeavy => {
            if high > 1 {
                high -= 1;
                low += 1;
            }
        },
        StrategyProfile::HighVersionPrecision => {
            if low > 0 {
                low -= 1;
                high += 1;
            } else if medium > 1 {
                medium -= 1;
                high += 1;
            }
        },
        StrategyProfile::LowContrastRecovery => {
            if medium > 0 {
                medium -= 1;
                low += 1;
            }
        },
        StrategyProfile::RotationHeavy => {
            if low > 0 {
                low -= 1;
                medium += 1;
            }
            if low > 0 {
                low -= 1;
                high += 1;
            }
        },
        StrategyProfile::FastSingle => {},
    }
    (high, medium, low)
}

fn fit_lanes(n: usize, h: usize, m: usize, l: usize) -> (r: (usize, usize, usize))
    requires
        h + m + l <= usize::MAX,
    ensures
        (r.0 as int, r.1 as int, r.2 as int) == fit_total(n as int, h as int, m as int, l as int),
        r.0 + r.1 + r.2 == n,
{
    let mut high = h;
    let mut medium = m;
    let mut low = l;
    let ghost total = h + m + l;
    let ghost mut k: int = 0;
    while high + medium + low > n
        invariant
            total <= usize::MAX,
            total == h + m + l,
            0 <= k,
            total > n ==> k <= total - n,
            total <= n ==> k == 0,
            high + medium + low == total - k,
            (high as int, medium as int, low as int) == take_back(h as int, m as int, l as int, k),
        decreases high + medium + low,
    {
        if low > 0 {
            low -= 1;
        } else if medium > 0 {
            medium -= 1;
        } else {
            high = high.saturating_sub(1);
        }
        proof {
            k = k + 1;
        }
    }
    let ghost fh = high;
    while high + medium + low < n
        invariant
            high + medium + low <= n,
            high >= fh,
            total > n ==> (fh as int, medium as int, low as int) == fit_total(
                n as int,
                h as int,
                m as int,
                l as int,
            ),
            total <= n ==> fh == h && medium == m && low == l,
            total > n ==> high == fh && high + medium + low == n,
            total <= n ==> high + medium + low == total + (high - fh),
        decreases n - (high + medium + low),
    {
        high += 1;
    }
    (high, medium, low)
}

/// Split `max_decode_attempts` between the confidence lanes for `strategy`.
/// The lanes always add up to the whole budget, and from two attempts on the
/// high lane has at least one. Half and three tenths are taken exactly (a
/// single-precision product agrees with them up to 3,495,262 attempts).
pub fn lane_budget_from_attempts(max_decode_attempts: usize, strategy: StrategyProfile) -> (b:
    LaneBudget)
    ensures
        (b.high as int, b.medium as int, b.low as int) == lane_split(
            max_decode_attempts as int,
            strategy,
        ),
        b.high + b.medium + b.low == max_decode_attempts,
        max_decode_attempts >= 2 ==> b.high >= 1,
{
    if max_decode_attempts <= 1 {
        return LaneBudget { high: max_decode_attempts, medium: 0, low: 0 };
    }
    let (h, m, l) = base_lanes(max_decode_attempts);
    let (h2, m2, l2) = shift_lanes(strategy, h, m, l);
    let (high, medium, low) = fit_lanes(max_decode_attempts, h2, m2, l2);
    LaneBudget { high, medium, low }
}

/// How many ranked candidates to decode: six, but never more than there are.
pub fn decode_top_k_limit(total_candidates: usize) -> (k: usize)
    ensures
        k == if total_candidates < DEFAULT_DECODE_TOP_K {
            total_candidates
        } else {
            DEFAULT_DECODE_TOP_K
        },
{
    if total_candidates == 0 {
        return 0;
    }
    let k = DEFAULT_DECODE_TOP_K;
    let k = if k < 1 {
        1
    } else if k > MAX_DECODE_TOP_K {
        MAX_DECODE_TOP_K
    } else {
        k
    };
    if total_candidates < k {
        total_candidates
    } else {
        k
    }
}

/// How many spatial regions to visit: for a dense scene one per retained
/// candidate, clamped to `8..=128`; eight otherwise.
pub fn region_limit_for_strategy(strategy: StrategyProfile, candidate_count: usize) -> (n: usize)
    ensures
        n == if strategy == StrategyProfile::MultiQrHeavy {
            if candidate_count < DEFAULT_MAX_REGIONS {
                DEFAULT_MAX_REGIONS
            } else if candidate_count > DENSE_MAX_GROUP_CANDIDATES {
                DENSE_MAX_GROUP_CANDIDATES
            } else {
                candidate_count
            }
        } else {
            DEFAULT_MAX_REGIONS
        },
{
    match strategy {
        StrategyProfile::MultiQrHeavy => {
            if candidate_count < DEFAULT_MAX_REGIONS {
                DEFAULT_MAX_REGIONS
            } else if candidate_count > DENSE_MAX_GROUP_CANDIDATES {
                DENSE_MAX_GROUP_CANDIDATES
            } else {
                candidate_count
            }
        },
        _ => DEFAULT_MAX_REGIONS,
    }
}

/// Whether matrix recovery may run: always, except for the dense strategy
/// once its heavy-recovery quota is spent.
pub fn matrix_recovery_allowed(strategy: StrategyProfile, allow_heavy_recovery: bool) -> (b: bool)
    ensures
        b == (strategy != StrategyProfile::MultiQrHeavy || allow_heavy_recovery),
{
    match strategy {
        StrategyProfile::MultiQrHeavy => allow_heavy_recovery,
        _ => true,
    }
}

} // verus!
