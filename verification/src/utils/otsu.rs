//! Otsu's global threshold: the grey level that maximises the between-class
//! variance of the pixels below it and the pixels at or above it.

use vstd::prelude::*;

verus! {

/// Number of pixels of `gray` whose value is `v`.
pub open spec fn count_value(gray: Seq<u8>, v: int) -> int
    decreases gray.len(),
{
    if gray.len() == 0 {
        0
    } else {
        count_value(gray.drop_last(), v) + if gray.last() == v { 1int } else { 0int }
    }
}

/// Number of pixels whose value is below `t`.
pub open spec fn count_below(gray: Seq<u8>, t: int) -> int
    decreases t,
{
    if t <= 0 {
        0
    } else {
        count_below(gray, t - 1) + count_value(gray, t - 1)
    }
}

/// Sum of the pixel values below `t`.
pub open spec fn sum_below(gray: Seq<u8>, t: int) -> int
    decreases t,
{
    if t <= 0 {
        0
    } else {
        sum_below(gray, t - 1) + (t - 1) * count_value(gray, t - 1)
    }
}

/// The sum of all pixel values of `gray`.
pub open spec fn pixel_sum(gray: Seq<u8>) -> int {
    sum_below(gray, 256)
}

/// Pixel count and value sum of the class below `t` and of the class at or above it.
pub open spec fn n_low(gray: Seq<u8>, t: int) -> int {
    count_below(gray, t)
}

pub open spec fn n_high(gray: Seq<u8>, t: int) -> int {
    count_below(gray, 256) - count_below(gray, t)
}

pub open spec fn s_low(gray: Seq<u8>, t: int) -> int {
    sum_below(gray, t)
}

pub open spec fn s_high(gray: Seq<u8>, t: int) -> int {
    sum_below(gray, 256) - sum_below(gray, t)
}

/// Both classes of threshold `t` are non-empty.
pub open spec fn split_valid(gray: Seq<u8>, t: int) -> bool {
    n_low(gray, t) > 0 && n_high(gray, t) > 0
}

/// The between-class variance of threshold `t` is `variance_num / variance_den`
/// divided by the squared pixel count: `w_low * w_high * (mean_low - mean_high)^2`.
pub open spec fn variance_num(gray: Seq<u8>, t: int) -> int {
    let d = n_high(gray, t) * s_low(gray, t) - n_low(gray, t) * s_high(gray, t);
    d * d
}

pub open spec fn variance_den(gray: Seq<u8>, t: int) -> int {
    n_low(gray, t) * n_high(gray, t)
}

/// The between-class variance of `t` is strictly below that of `u`.
pub open spec fn variance_less(gray: Seq<u8>, t: int, u: int) -> bool {
    variance_num(gray, t) * variance_den(gray, u) < variance_num(gray, u) * variance_den(gray, t)
}

/// Some threshold in `0..=255` splits the pixels into two non-empty classes
/// with positive between-class variance.
pub open spec fn has_positive_split(gray: Seq<u8>) -> bool {
    exists|t: int| 0 <= t < 256 && split_valid(gray, t) && variance_num(gray, t) > 0
}

/// `r` is Otsu's threshold: the first threshold in `0..=255` of greatest
/// positive between-class variance, or 128 when no threshold has positive variance.
pub open spec fn is_otsu_threshold(gray: Seq<u8>, r: int) -> bool {
    if has_positive_split(gray) {
        &&& 0 <= r < 256
        &&& split_valid(gray, r)
        &&& variance_num(gray, r) > 0
        &&& forall|t: int| 0 <= t < 256 && split_valid(gray, t) ==> !#[trigger] variance_less(gray, r, t)
        &&& forall|t: int| 0 <= t < r && split_valid(gray, t) ==> #[trigger] variance_less(gray, t, r)
    } else {
        r == 128
    }
}

/// Otsu's threshold is unique: two thresholds that both meet its definition
/// are the same.
pub proof fn lemma_otsu_threshold_unique(gray: Seq<u8>, r1: int, r2: int)
    requires
        is_otsu_threshold(gray, r1),
        is_otsu_threshold(gray, r2),
    ensures
        r1 == r2,
{
    if has_positive_split(gray) {
        if r1 < r2 {
            assert(variance_less(gray, r1, r2));
            assert(!variance_less(gray, r1, r2));
        } else if r2 < r1 {
            assert(variance_less(gray, r2, r1));
            assert(!variance_less(gray, r2, r1));
        }
    }
}

proof fn lemma_count_value_take(gray: Seq<u8>, i: int, v: int)
    requires
        0 <= i < gray.len(),
    ensures
        count_value(gray.take(i + 1), v) == count_value(gray.take(i), v) + if gray[i] == v { 1int } else { 0int },
{
    assert(gray.take(i + 1).drop_last() =~= gray.take(i));
}

proof fn lemma_count_value_nonneg(gray: Seq<u8>, v: int)
    ensures
        0 <= count_value(gray, v),
    decreases gray.len(),
{
    if gray.len() > 0 {
        lemma_count_value_nonneg(gray.drop_last(), v);
    }
}

/// All pixels are below 256, and class counts and sums are monotone and bounded.
proof fn lemma_class_bounds(gray: Seq<u8>, t: int)
    requires
        0 <= t <= 256,
    ensures
        0 <= count_below(gray, t) <= count_below(gray, 256),
        0 <= sum_below(gray, t) <= sum_below(gray, 256),
        sum_below(gray, t) <= 255 * count_below(gray, t),
        sum_below(gray, 256) - sum_below(gray, t) <= 255 * (count_below(gray, 256) - count_below(gray, t)),
    decreases 256 - t,
{
    lemma_below_bounds(gray, t);
    if t < 256 {
        lemma_class_bounds(gray, t + 1);
        lemma_count_value_nonneg(gray, t);
        assert(t * count_value(gray, t) <= 255 * count_value(gray, t)) by (nonlinear_arith)
            requires 0 <= t <= 255, count_value(gray, t) >= 0;
        assert(0 <= t * count_value(gray, t)) by (nonlinear_arith)
            requires 0 <= t, count_value(gray, t) >= 0;
    }
}

proof fn lemma_below_bounds(gray: Seq<u8>, t: int)
    requires
        0 <= t <= 256,
    ensures
        0 <= count_below(gray, t),
        0 <= sum_below(gray, t) <= 255 * count_below(gray, t),
    decreases t,
{
    if t > 0 {
        lemma_below_bounds(gray, t - 1);
        lemma_count_value_nonneg(gray, t - 1);
        assert((t - 1) * count_value(gray, t - 1) <= 255 * count_value(gray, t - 1)) by (nonlinear_arith)
            requires 0 <= t - 1 <= 255, count_value(gray, t - 1) >= 0;
        assert(0 <= (t - 1) * count_value(gray, t - 1)) by (nonlinear_arith)
            requires 0 <= t - 1, count_value(gray, t - 1) >= 0;
    }
}

/// At most every pixel lies below a level.
pub proof fn lemma_count_below_bound(gray: Seq<u8>, t: int)
    requires
        0 <= t <= 256,
    ensures
        0 <= count_below(gray, t) <= gray.len(),
{
    lemma_class_bounds(gray, t);
    lemma_count_all(gray);
}

/// Every pixel has a value below 256.
proof fn lemma_count_all(gray: Seq<u8>)
    ensures
        count_below(gray, 256) == gray.len(),
    decreases gray.len(),
{
    if gray.len() == 0 {
        lemma_count_empty(gray, 256);
    } else {
        let rest = gray.drop_last();
        lemma_count_all(rest);
        lemma_count_below_step(gray, 256);
        assert(gray.last() < 256);
        assert(count_below(gray, 256) == count_below(rest, 256) + 1);
    }
}

pub(crate) proof fn lemma_count_empty(gray: Seq<u8>, t: int)
    requires
        gray.len() == 0,
    ensures
        count_below(gray, t) == 0,
    decreases t,
{
    if t > 0 {
        lemma_count_empty(gray, t - 1);
    }
}

pub(crate) proof fn lemma_count_below_step(gray: Seq<u8>, t: int)
    requires
        gray.len() > 0,
        0 <= t <= 256,
    ensures
        count_below(gray, t) == count_below(gray.drop_last(), t) + if gray.last() < t { 1int } else { 0int },
    decreases t,
{
    if t > 0 {
        lemma_count_below_step(gray, t - 1);
    }
}

/// Comparing two fractions through their quotients and remainders.
proof fn lemma_fraction_compare(a: int, b: int, c: int, d: int)
    requires
        a >= 0,
        c >= 0,
        b > 0,
        d > 0,
    ensures
        (a * d < c * b) == (a / b < c / d || (a / b == c / d && (a % b) * d < (c % d) * b)),
{
    let q1 = a / b;
    let r1 = a % b;
    let q2 = c / d;
    let r2 = c % d;
    assert(a == q1 * b + r1 && 0 <= r1 < b) by (nonlinear_arith)
        requires a >= 0, b > 0, q1 == a / b, r1 == a % b;
    assert(c == q2 * d + r2 && 0 <= r2 < d) by (nonlinear_arith)
        requires c >= 0, d > 0, q2 == c / d, r2 == c % d;
    assert(a * d - c * b == (q1 - q2) * (b * d) + (r1 * d - r2 * b)) by (nonlinear_arith)
        requires a == q1 * b + r1, c == q2 * d + r2;
    assert(0 <= r1 * d < b * d) by (nonlinear_arith)
        requires 0 <= r1 < b, d > 0;
    assert(0 <= r2 * b < b * d) by (nonlinear_arith)
        requires 0 <= r2 < d, b > 0;
    if q1 < q2 {
        assert((q1 - q2) * (b * d) <= -(b * d)) by (nonlinear_arith)
            requires q1 - q2 <= -1, b * d > 0;
        assert(a * d - c * b < 0);
    } else if q1 > q2 {
        assert((q1 - q2) * (b * d) >= b * d) by (nonlinear_arith)
            requires q1 - q2 >= 1, b * d > 0;
        assert(a * d - c * b > 0);
    } else {
        assert((q1 - q2) * (b * d) == 0) by (nonlinear_arith)
            requires q1 == q2;
        assert(a * d - c * b == r1 * d - r2 * b);
    }
}

proof fn lemma_ratio_trans(a: int, b: int, c: int, d: int, e: int, f: int)
    requires
        b > 0,
        d > 0,
        f > 0,
        a * d <= c * b,
        c * f < e * d,
    ensures
        a * f < e * b,
{
    assert(a * d * f <= c * b * f) by (nonlinear_arith)
        requires a * d <= c * b, f > 0;
    assert(c * f * b < e * d * b) by (nonlinear_arith)
        requires c * f < e * d, b > 0;
    assert(a * f * d < e * b * d) by (nonlinear_arith)
        requires a * d * f <= c * b * f, c * f * b < e * d * b;
    assert(a * f < e * b) by (nonlinear_arith)
        requires a * f * d < e * b * d, d > 0;
}

proof fn lemma_ratio_zero(a: int, b: int, c: int, d: int)
    requires
        a == 0,
        b > 0,
        c > 0,
        d > 0,
    ensures
        a * d < c * b,
        !(c * b < a * d),
{
    assert(c * b > 0) by (nonlinear_arith)
        requires c > 0, b > 0;
}

proof fn lemma_num_den_facts(gray: Seq<u8>, t: int)
    ensures
        variance_num(gray, t) >= 0,
        split_valid(gray, t) ==> variance_den(gray, t) > 0,
{
    let d = n_high(gray, t) * s_low(gray, t) - n_low(gray, t) * s_high(gray, t);
    assert(d * d >= 0) by (nonlinear_arith);
    if split_valid(gray, t) {
        assert(n_low(gray, t) * n_high(gray, t) > 0) by (nonlinear_arith)
            requires n_low(gray, t) > 0, n_high(gray, t) > 0;
    }
}

/// The number of pixels of each grey level.
pub fn gray_histogram(gray: &[u8]) -> (histogram: Vec<u32>)
    requires
        gray@.len() <= u32::MAX,
    ensures
        histogram@.len() == 256,
        forall|v: int| 0 <= v < 256 ==> #[trigger] histogram@[v] as int == count_value(gray@, v),
{
    let mut histogram: Vec<u32> = vec![0u32; 256];
    let n = gray.len();
    let mut i: usize = 0;
    proof {
        assert forall|v: int| 0 <= v < 256 implies #[trigger] histogram@[v] as int == count_value(
            gray@.take(0),
            v,
        ) by {
            assert(cloned::<u32>(0u32, histogram@[v]));
            assert(gray@.take(0) =~= Seq::<u8>::empty());
        }
    }
    while i < n
        invariant
            n == gray@.len(),
            n <= u32::MAX,
            i <= n,
            histogram@.len() == 256,
            forall|v: int| 0 <= v < 256 ==> #[trigger] histogram@[v] as int == count_value(gray@.take(i as int), v),
            forall|v: int| 0 <= v < 256 ==> #[trigger] histogram@[v] as int <= i,
        decreases n - i,
    {
        let p = gray[i] as usize;
        proof {
            assert forall|v: int| 0 <= v < 256 implies count_value(gray@.take(i + 1), v) == count_value(
                gray@.take(i as int),
                v,
            ) + if gray@[i as int] == v { 1int } else { 0int } by {
                lemma_count_value_take(gray@, i as int, v);
            }
        }
        let old_count = histogram[p];
        histogram.set(p, old_count + 1);
        i = i + 1;
    }
    proof {
        assert(gray@.take(n as int) =~= gray@);
    }
    histogram
}

/// Calculate Otsu's threshold: the first grey level of greatest positive
/// between-class variance, 128 when no level has positive variance.
pub fn calculate_otsu_threshold(gray: &[u8]) -> (threshold: u8)
    requires
        gray@.len() <= u32::MAX,
        pixel_sum(gray@) <= u32::MAX,
    ensures
        is_otsu_threshold(gray@, threshold as int),
{
    let histogram = gray_histogram(gray);
    let n = gray.len();
    // totals of all pixels
    let mut total_n: u64 = 0;
    let mut total_s: u64 = 0;
    let mut v: usize = 0;
    while v < 256
        invariant
            n == gray@.len(),
            n <= u32::MAX,
            sum_below(gray@, 256) <= u32::MAX,
            histogram@.len() == 256,
            forall|k: int| 0 <= k < 256 ==> #[trigger] histogram@[k] as int == count_value(gray@, k),
            v <= 256,
            total_n as int == count_below(gray@, v as int),
            total_s as int == sum_below(gray@, v as int),
        decreases 256 - v,
    {
        proof {
            lemma_class_bounds(gray@, v as int + 1);
            lemma_count_all(gray@);
        }
        let c = histogram[v] as u64;
        total_n = total_n + c;
        total_s = total_s + (v as u64) * c;
        v = v + 1;
    }
    proof {
        lemma_count_all(gray@);
        lemma_class_bounds(gray@, 0);
    }
    let mut best: Option<u8> = None;
    let mut best_num: u128 = 0;
    let mut best_den: u128 = 1;
    let mut n1: u64 = 0;
    let mut s1: u64 = 0;
    let mut t: usize = 0;
    while t < 256
        invariant
            n == gray@.len(),
            n <= u32::MAX,
            sum_below(gray@, 256) <= u32::MAX,
            histogram@.len() == 256,
            forall|k: int| 0 <= k < 256 ==> #[trigger] histogram@[k] as int == count_value(gray@, k),
            total_n as int == count_below(gray@, 256),
            total_s as int == sum_below(gray@, 256),
            total_n == n,
            t <= 256,
            n1 as int == count_below(gray@, t as int),
            s1 as int == sum_below(gray@, t as int),
            0 < best_den <= 4294967295 * 4294967295,
            best is None ==> forall|u: int|
                0 <= u < t && split_valid(gray@, u) ==> variance_num(gray@, u) <= 0,
            best is Some ==> {
                let b = best->0 as int;
                &&& b < t
                &&& split_valid(gray@, b)
                &&& variance_num(gray@, b) > 0
                &&& best_num == variance_num(gray@, b)
                &&& best_den == variance_den(gray@, b)
                &&& forall|u: int| 0 <= u < t && split_valid(gray@, u) ==> !#[trigger] variance_less(gray@, b, u)
                &&& forall|u: int| 0 <= u < b && split_valid(gray@, u) ==> #[trigger] variance_less(gray@, u, b)
            },
        decreases 256 - t,
    {
        proof {
            lemma_class_bounds(gray@, t as int);
            lemma_class_bounds(gray@, t as int + 1);
        }
        let n2 = total_n - n1;
        let s2 = total_s - s1;
        if n1 > 0 && n2 > 0 {
            // |n2 * s1 - n1 * s2|
            proof {
                assert(n2 * s1 <= 4294967295 * 4294967295) by (nonlinear_arith)
                    requires n2 <= 4294967295, s1 <= 4294967295;
                assert(n1 * s2 <= 4294967295 * 4294967295) by (nonlinear_arith)
                    requires n1 <= 4294967295, s2 <= 4294967295;
            }
            let left = (n2 as u128) * (s1 as u128);
            let right = (n1 as u128) * (s2 as u128);
            let diff: u128 = if left >= right { left - right } else { right - left };
            proof {
                assert(diff * diff <= (4294967295 * 4294967295) * (4294967295 * 4294967295)) by (nonlinear_arith)
                    requires diff <= 4294967295 * 4294967295;
                assert(n1 * n2 <= 4294967295 * 4294967295) by (nonlinear_arith)
                    requires n1 <= 4294967295, n2 <= 4294967295;
                assert((diff * diff) as int == variance_num(gray@, t as int)) by (nonlinear_arith)
                    requires
                        diff as int == left - right || diff as int == right - left,
                        left as int == n_high(gray@, t as int) * s_low(gray@, t as int),
                        right as int == n_low(gray@, t as int) * s_high(gray@, t as int);
            }
            let num = diff * diff;
            let den = (n1 as u128) * (n2 as u128);
            proof {
                assert(den > 0) by (nonlinear_arith) requires den == n1 * n2, n1 > 0, n2 > 0;
                if let Some(b) = best {
                    assert(best_den > 0) by (nonlinear_arith)
                        requires
                            best_den == n_low(gray@, b as int) * n_high(gray@, b as int),
                            n_low(gray@, b as int) > 0,
                            n_high(gray@, b as int) > 0;
                }
            }
            let improves = match best {
                None => num > 0,
                Some(_) => {
                    let q_new = num / den;
                    let q_best = best_num / best_den;
                    if q_new != q_best {
                        q_new > q_best
                    } else {
                        proof {
                            assert(num % den < den) by (nonlinear_arith) requires den > 0;
                            assert(best_num % best_den < best_den) by (nonlinear_arith) requires best_den > 0;
                            assert((num % den) * best_den < 4294967295 * 4294967295 * 4294967295 * 4294967295) by (nonlinear_arith)
                                requires num % den < den, den <= 4294967295 * 4294967295, best_den <= 4294967295 * 4294967295;
                            assert((best_num % best_den) * den < 4294967295 * 4294967295 * 4294967295 * 4294967295) by (nonlinear_arith)
                                requires best_num % best_den < best_den, den <= 4294967295 * 4294967295, best_den <= 4294967295 * 4294967295;
                        }
                        (num % den) * best_den > (best_num % best_den) * den
                    }
                },
            };
            proof {
                lemma_num_den_facts(gray@, t as int);
                if let Some(b) = best {
                    lemma_fraction_compare(best_num as int, best_den as int, num as int, den as int);
                }
            }
            let ghost prev = best;
            if improves {
                best = Some(t as u8);
                best_num = num;
                best_den = den;
            }
            proof {
                if best is None {
                    assert(variance_num(gray@, t as int) <= 0);
                } else {
                    let bn = best->0 as int;
                    if improves {
                        assert(bn == t);
                        if let Some(b0) = prev {
                            let b0 = b0 as int;
                            lemma_num_den_facts(gray@, b0);
                            assert(variance_num(gray@, b0) * variance_den(gray@, bn) > 0) by (nonlinear_arith)
                                requires variance_num(gray@, b0) > 0, variance_den(gray@, bn) > 0;
                            assert(variance_num(gray@, bn) > 0) by (nonlinear_arith)
                                requires
                                    variance_num(gray@, b0) * variance_den(gray@, bn) < variance_num(gray@, bn)
                                        * variance_den(gray@, b0),
                                    variance_num(gray@, b0) * variance_den(gray@, bn) > 0,
                                    variance_den(gray@, b0) > 0;
                        }
                        assert(split_valid(gray@, bn));
                        assert(best_num as int == variance_num(gray@, bn));
                        assert(best_den as int == variance_den(gray@, bn));
                        assert forall|u: int| 0 <= u < t + 1 && split_valid(gray@, u) implies (!variance_less(
                            gray@,
                            bn,
                            u,
                        ) && (u < bn ==> variance_less(gray@, u, bn))) by {
                            lemma_num_den_facts(gray@, u);
                            if u < t {
                                match prev {
                                    None => {
                                        lemma_ratio_zero(
                                            variance_num(gray@, u),
                                            variance_den(gray@, u),
                                            variance_num(gray@, bn),
                                            variance_den(gray@, bn),
                                        );
                                    },
                                    Some(b0) => {
                                        let b0 = b0 as int;
                                        lemma_num_den_facts(gray@, b0);
                                        assert(!variance_less(gray@, b0, u));
                                        assert(variance_less(gray@, b0, bn));
                                        lemma_ratio_trans(
                                            variance_num(gray@, u),
                                            variance_den(gray@, u),
                                            variance_num(gray@, b0),
                                            variance_den(gray@, b0),
                                            variance_num(gray@, bn),
                                            variance_den(gray@, bn),
                                        );
                                    },
                                }
                            }
                        }
                        assert forall|u: int| 0 <= u < t + 1 && split_valid(gray@, u) implies !#[trigger] variance_less(
                            gray@,
                            bn,
                            u,
                        ) by {}
                        assert forall|u: int| 0 <= u < bn && split_valid(gray@, u) implies #[trigger] variance_less(
                            gray@,
                            u,
                            bn,
                        ) by {}
                    } else {
                        assert(prev == best);
                        assert(!variance_less(gray@, bn, t as int));
                    }
                }
            }
        } else {
            proof {
                assert(!split_valid(gray@, t as int));
            }
        }
        proof {
            if best is None {
                assert forall|u: int| 0 <= u < t + 1 && split_valid(gray@, u) implies variance_num(gray@, u) <= 0 by {
                    if u == t {
                    }
                }
            }
        }
        n1 = n1 + histogram[t] as u64;
        s1 = s1 + (t as u64) * (histogram[t] as u64);
        t = t + 1;
    }
    match best {
        Some(b) => b,
        None => 128,
    }
}

} // verus!
