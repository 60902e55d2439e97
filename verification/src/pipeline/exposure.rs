//! Whole-image exposure checks and enhancement used before retrying a
//! detection: overexposure detection and a rounded linear contrast stretch.

use vstd::prelude::*;
use crate::utils::otsu::{count_below, lemma_count_below_step, lemma_count_empty, lemma_count_below_bound};
use crate::pipeline::grayscale_views::{
    seq_min, seq_max, min_max, copy_of, lemma_seq_min_bounds, lemma_seq_max_bounds,
};

verus! {

/// Whether a grayscale image is overexposed: it has pixels, and either more
/// than a fifth of them are brighter than 199, or its median level (the
/// first level at or below which at least half of the pixels lie) is above
/// 180, that is, fewer than half of the pixels are at or below 180.
pub open spec fn spec_overexposed(gray: Seq<u8>) -> bool {
    let n = gray.len() as int;
    n > 0 && (5 * (n - count_below(gray, 200)) > n || 2 * count_below(gray, 181) < n)
}

/// Whether a grayscale image is overexposed.
pub fn is_overexposed(gray: &[u8]) -> (overexposed: bool)
    ensures
        overexposed == spec_overexposed(gray@),
{
    let n = gray.len();
    if n == 0 {
        return false;
    }
    let mut bright: usize = 0;
    let mut dark_half: usize = 0;
    let mut i: usize = 0;
    proof {
        lemma_count_empty(gray@.take(0), 200);
        lemma_count_empty(gray@.take(0), 181);
    }
    while i < n
        invariant
            n == gray@.len(),
            i <= n,
            bright == i - count_below(gray@.take(i as int), 200),
            dark_half == count_below(gray@.take(i as int), 181),
            bright <= i,
            dark_half <= i,
        decreases n - i,
    {
        let ghost prefix = gray@.take(i + 1);
        proof {
            assert(prefix.drop_last() =~= gray@.take(i as int));
            assert(prefix.last() == gray@[i as int]);
            lemma_count_below_step(prefix, 200);
            lemma_count_below_step(prefix, 181);
            lemma_count_below_bound(gray@.take(i as int), 200);
        }
        let v = gray[i];
        if v >= 200 {
            bright += 1;
        }
        if v < 181 {
            dark_half += 1;
        }
        i += 1;
    }
    proof {
        assert(gray@.take(n as int) =~= gray@);
    }
    let many_bright = bright > n / 5;
    assert(many_bright == (5 * bright > n)) by (nonlinear_arith)
        requires
            many_bright == (bright > n / 5),
            n > 0,
    ;
    let bright_median = dark_half < n - dark_half;
    many_bright || bright_median
}

/// The level that `v` takes when levels `lo` to `hi` are stretched onto 0
/// to 255, rounded to the nearest level, halves up.
pub open spec fn stretched_level(v: u8, lo: u8, hi: u8) -> int {
    (2 * (v - lo) * 255 + (hi - lo)) / (2 * (hi - lo))
}

/// Stretch a grayscale image linearly so its darkest level becomes 0 and its
/// brightest 255, rounding to the nearest level (halves up); an empty image,
/// or one whose levels span at most eight, is returned unchanged.
pub fn contrast_stretch(gray: &[u8]) -> (out: Vec<u8>)
    ensures
        ({
            let lo = seq_min(gray@);
            let hi = seq_max(gray@);
            &&& hi <= lo + 8 ==> out@ == gray@
            &&& hi > lo + 8 ==> {
                &&& out@.len() == gray@.len()
                &&& forall|i: int|
                    0 <= i < out@.len() ==> #[trigger] out@[i] as int == stretched_level(
                        gray@[i],
                        lo,
                        hi,
                    )
            }
        }),
{
    let (lo, hi) = min_max(gray);
    if hi <= lo || hi - lo <= 8 {
        return copy_of(gray);
    }
    proof {
        lemma_seq_min_bounds(gray@);
        lemma_seq_max_bounds(gray@);
    }
    let range = (hi - lo) as u32;
    let mut out: Vec<u8> = Vec::new();
    let mut i: usize = 0;
    while i < gray.len()
        invariant
            lo == seq_min(gray@),
            hi == seq_max(gray@),
            forall|k: int| 0 <= k < gray@.len() ==> lo <= #[trigger] gray@[k] <= hi,
            range == hi - lo,
            9 <= range <= 255,
            0 <= i <= gray@.len(),
            out@.len() == i,
            forall|k: int|
                0 <= k < i ==> #[trigger] out@[k] as int == stretched_level(gray@[k], lo, hi),
        decreases gray@.len() - i,
    {
        let d = (gray[i] - lo) as u32;
        let level = (2 * d * 255 + range) / (2 * range);
        assert(level <= 255) by (nonlinear_arith)
            requires
                level == (2 * d * 255 + range) / (2 * range as int),
                d <= range,
                range >= 9,
        ;
        out.push(level as u8);
        i += 1;
    }
    out
}

} // verus!
