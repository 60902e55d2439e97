//! The binarization strategy of a detection request: window sizes, the
//! histogram median, the order in which binarization policies are tried and
//! the contrast of an image.

use vstd::prelude::*;
use crate::utils::otsu::pixel_sum;
use crate::models::matrix::BitMatrix;
use crate::utils::binarization::{
    adaptive_binarize, otsu_binarize, adaptive_dark, adaptive_inputs_ok, gray_at,
    lemma_smaller_window_ok,
};
use crate::utils::otsu::{count_below, gray_histogram, is_otsu_threshold, count_value};
use crate::pipeline::grayscale_views::{seq_min, seq_max, lemma_seq_min_max_order};

verus! {

/// The adaptive window for a `width` x `height` image: a twenty-fourth of
/// the shorter side, at least 31, made odd.
pub open spec fn spec_auto_window(width: int, height: int) -> int {
    let m = if width < height { width } else { height };
    let base = if m / 24 > 31 { m / 24 } else { 31 };
    if base % 2 == 0 { base + 1 } else { base }
}

/// The adaptive window for a `width` x `height` image.
pub fn auto_window(width: usize, height: usize) -> (w: usize)
    ensures
        w == spec_auto_window(width as int, height as int),
        w % 2 == 1,
        w >= 31,
{
    let m = if width < height {
        width
    } else {
        height
    };
    let base = if m / 24 > 31 {
        m / 24
    } else {
        31
    };
    if base % 2 == 0 {
        base + 1
    } else {
        base
    }
}

/// The first grey level at or after `i` whose cumulative count reaches
/// `half`, or 128 when none does.
pub open spec fn first_level_reaching(gray: Seq<u8>, half: int, i: int) -> int
    decreases 256 - i,
{
    if i >= 256 {
        128
    } else if count_below(gray, i + 1) >= half {
        i
    } else {
        first_level_reaching(gray, half, i + 1)
    }
}

/// The median grey level: the first level at which the cumulative count
/// reaches half the pixel count (rounded down).
pub open spec fn median_level(gray: Seq<u8>) -> int {
    first_level_reaching(gray, (gray.len() / 2) as int, 0)
}

/// The median grey level of `gray`.
pub fn histogram_median(gray: &[u8]) -> (m: u8)
    requires
        gray@.len() <= u32::MAX,
    ensures
        m as int == median_level(gray@),
{
    let hist = gray_histogram(gray);
    let half = (gray.len() as u32) / 2;
    let mut cum: u32 = 0;
    let mut i: usize = 0;
    while i < 256
        invariant
            hist@.len() == 256,
            forall|v: int| 0 <= v < 256 ==> #[trigger] hist@[v] as int == count_value(gray@, v),
            gray@.len() <= u32::MAX,
            half as int == gray@.len() / 2,
            0 <= i <= 256,
            cum as int == count_below(gray@, i as int),
            first_level_reaching(gray@, half as int, i as int) == median_level(gray@),
        decreases 256 - i,
    {
        proof {
            crate::utils::otsu::lemma_count_below_bound(gray@, i as int + 1);
        }
        cum += hist[i];
        if cum >= half {
            return i as u8;
        }
        i += 1;
    }
    128
}

/// A binarization policy of the detection fallback chain.
#[derive(Clone, Copy, Debug, PartialEq, Eq, Structural)]
pub enum BinarizationPolicy {
    Otsu,
    Adaptive31,
    Adaptive21,
}

/// The policy tried first: adaptive with a 31-pixel window when either side
/// reaches 800, Otsu otherwise.
pub open spec fn spec_initial_policy(width: int, height: int) -> BinarizationPolicy {
    if width >= 800 || height >= 800 {
        BinarizationPolicy::Adaptive31
    } else {
        BinarizationPolicy::Otsu
    }
}

/// The policy tried first for a `width` x `height` image.
pub fn initial_policy(width: usize, height: usize) -> (p: BinarizationPolicy)
    ensures
        p == spec_initial_policy(width as int, height as int),
{
    if width >= 800 || height >= 800 {
        BinarizationPolicy::Adaptive31
    } else {
        BinarizationPolicy::Otsu
    }
}

fn contains_policy(sequence: &Vec<BinarizationPolicy>, policy: BinarizationPolicy) -> (b: bool)
    ensures
        b == sequence@.contains(policy),
{
    let mut i: usize = 0;
    while i < sequence.len()
        invariant
            0 <= i <= sequence@.len(),
            forall|k: int| 0 <= k < i ==> sequence@[k] != policy,
        decreases sequence@.len() - i,
    {
        if sequence[i] == policy {
            assert(sequence@[i as int] == policy);
            return true;
        }
        i += 1;
    }
    false
}

/// The order in which policies are tried: the initial policy first, then
/// the others of Otsu, adaptive-31 and adaptive-21 in that order.
pub fn phase9_binarization_sequence(width: usize, height: usize) -> (s: Vec<BinarizationPolicy>)
    ensures
        s@ == if spec_initial_policy(width as int, height as int) == BinarizationPolicy::Adaptive31 {
            seq![BinarizationPolicy::Adaptive31, BinarizationPolicy::Otsu, BinarizationPolicy::Adaptive21]
        } else {
            seq![BinarizationPolicy::Otsu, BinarizationPolicy::Adaptive31, BinarizationPolicy::Adaptive21]
        },
{
    let strict = initial_policy(width, height);
    let mut sequence: Vec<BinarizationPolicy> = Vec::new();
    sequence.push(strict);
    assert(sequence@ =~= seq![strict]);
    assert(strict == BinarizationPolicy::Otsu || strict == BinarizationPolicy::Adaptive31);
    if strict == BinarizationPolicy::Otsu {
        assert(sequence@[0] == BinarizationPolicy::Otsu);
    }
    if !contains_policy(&sequence, BinarizationPolicy::Otsu) {
        sequence.push(BinarizationPolicy::Otsu);
    }
    assert(sequence@ =~= seq![BinarizationPolicy::Otsu] || sequence@ =~= seq![
        BinarizationPolicy::Adaptive31,
        BinarizationPolicy::Otsu,
    ]);
    if strict == BinarizationPolicy::Adaptive31 {
        assert(sequence@[0] == BinarizationPolicy::Adaptive31);
    }
    if !contains_policy(&sequence, BinarizationPolicy::Adaptive31) {
        sequence.push(BinarizationPolicy::Adaptive31);
    }
    let ghost two = sequence@;
    assert(two =~= seq![BinarizationPolicy::Otsu, BinarizationPolicy::Adaptive31] || two =~= seq![
        BinarizationPolicy::Adaptive31,
        BinarizationPolicy::Otsu,
    ]);
    assert(!two.contains(BinarizationPolicy::Adaptive21)) by {
        if two.contains(BinarizationPolicy::Adaptive21) {
            let k = choose|k: int| 0 <= k < two.len() && two[k] == BinarizationPolicy::Adaptive21;
        }
    }
    if !contains_policy(&sequence, BinarizationPolicy::Adaptive21) {
        sequence.push(BinarizationPolicy::Adaptive21);
    }
    proof {
        if strict == BinarizationPolicy::Adaptive31 {
            assert(sequence@ =~= seq![
                BinarizationPolicy::Adaptive31,
                BinarizationPolicy::Otsu,
                BinarizationPolicy::Adaptive21,
            ]);
        } else {
            assert(sequence@ =~= seq![
                BinarizationPolicy::Otsu,
                BinarizationPolicy::Adaptive31,
                BinarizationPolicy::Adaptive21,
            ]);
        }
    }
    sequence
}

/// The adaptive window of a policy.
pub open spec fn policy_window(policy: BinarizationPolicy) -> int {
    match policy {
        BinarizationPolicy::Adaptive21 => 21,
        _ => 31,
    }
}

/// Binarize `gray` with `policy`: Otsu's threshold, or adaptive
/// thresholding with a 31- or 21-pixel window.
pub fn binarize_with_policy(gray: &[u8], width: usize, height: usize, policy: BinarizationPolicy) -> (binary: BitMatrix)
    requires
        width * height + 7 <= usize::MAX,
        gray@.len() <= u32::MAX,
        pixel_sum(gray@) <= u32::MAX,
        adaptive_inputs_ok(gray@, width as int, height as int, 31),
    ensures
        binary.wf(),
        binary.spec_width() == width,
        binary.spec_height() == height,
        policy == BinarizationPolicy::Otsu ==> exists|t: int|
            is_otsu_threshold(gray@, t) && forall|x: int, y: int|
                0 <= x < width && 0 <= y < height ==> #[trigger] binary.cell(x, y) == (gray_at(
                    gray@,
                    width as int,
                    x,
                    y,
                ) < t),
        policy != BinarizationPolicy::Otsu ==> forall|x: int, y: int|
            0 <= x < width && 0 <= y < height ==> #[trigger] binary.cell(x, y) == adaptive_dark(
                gray@,
                width as int,
                height as int,
                policy_window(policy),
                x,
                y,
            ),
{
    match policy {
        BinarizationPolicy::Otsu => otsu_binarize(gray, width, height),
        BinarizationPolicy::Adaptive31 => adaptive_binarize(gray, width, height, 31),
        BinarizationPolicy::Adaptive21 => {
            proof {
                lemma_smaller_window_ok(gray@, width as int, height as int, 21, 31);
            }
            adaptive_binarize(gray, width, height, 21)
        },
    }
}

/// The spread of grey levels: the largest value minus the smallest, zero
/// for an empty image.
pub fn grayscale_contrast_span(gray: &[u8]) -> (span: u8)
    ensures
        span == seq_max(gray@) - seq_min(gray@),
{
    if gray.len() == 0 {
        return 0;
    }
    let (lo, hi) = crate::pipeline::grayscale_views::min_max(gray);
    proof {
        lemma_seq_min_max_order(gray@);
    }
    hi - lo
}

} // verus!
