//! Benchmark and evaluation helpers: grayscale and binarization with the
//! detection policy, grayscale statistics, payload normalization and the
//! score records of a benchmark run.

use vstd::prelude::*;
use crate::utils::otsu::pixel_sum;
use vstd::multiset::Multiset;
use crate::models::matrix::BitMatrix;
use crate::input::luma;
use crate::strategy::{BinarizationPolicy, binarize_with_policy, spec_initial_policy, initial_policy, policy_window};
use crate::utils::binarization::{adaptive_dark, adaptive_inputs_ok, gray_at, otsu_binarize};
use crate::utils::otsu::is_otsu_threshold;
use crate::utils::grayscale::holds_luma;
use crate::pipeline::grayscale_views::{seq_min, seq_max};

verus! {

/// Localization counts produced by one-to-one matching.
#[derive(Debug, Clone, Copy, PartialEq, Eq, Structural)]
pub struct LocalizationScore {
    pub true_positives: usize,
    pub false_positives: usize,
    pub false_negatives: usize,
    pub duplicate_predictions: usize,
}

/// Exact payload-match counts, kept separate from localization scoring.
#[derive(Debug, Clone, Copy, PartialEq, Eq, Structural)]
pub struct PayloadScore {
    pub exact_matches: usize,
    pub expected: usize,
    pub predicted: usize,
}

/// RGB image data together with both source and processed dimensions.
pub struct LoadedRgb {
    pub pixels: Vec<u8>,
    pub width: usize,
    pub height: usize,
    pub source_width: usize,
    pub source_height: usize,
}

/// Summary statistics for grayscale data.
#[derive(Debug, Clone, Copy, PartialEq, Eq, Structural)]
pub struct GrayStats {
    /// Minimum grayscale value.
    pub min: u8,
    /// Maximum grayscale value.
    pub max: u8,
    /// Average grayscale value.
    pub avg: u8,
}

/// Convert RGB bytes into grayscale.
pub fn to_grayscale(rgb: &[u8], width: usize, height: usize) -> (gray: Vec<u8>)
    requires
        width * height <= usize::MAX,
        3 * (width * height) <= rgb@.len(),
    ensures
        gray@.len() == width * height,
        holds_luma(rgb@, 3, gray@, (width * height) as int),
{
    crate::utils::grayscale::rgb_to_grayscale(rgb, width, height)
}

/// Binarize a grayscale image with the policy detection starts with:
/// adaptive with a 31-pixel window when either side reaches 800, Otsu's
/// threshold otherwise.
pub fn binarize(gray: &[u8], width: usize, height: usize) -> (binary: BitMatrix)
    requires
        width * height + 7 <= usize::MAX,
        gray@.len() <= u32::MAX,
        pixel_sum(gray@) <= u32::MAX,
        adaptive_inputs_ok(gray@, width as int, height as int, 31),
    ensures
        binary.wf(),
        binary.spec_width() == width,
        binary.spec_height() == height,
        spec_initial_policy(width as int, height as int) == BinarizationPolicy::Otsu ==> exists|t: int|
            is_otsu_threshold(gray@, t) && forall|x: int, y: int|
                0 <= x < width && 0 <= y < height ==> #[trigger] binary.cell(x, y) == (gray_at(
                    gray@,
                    width as int,
                    x,
                    y,
                ) < t),
        spec_initial_policy(width as int, height as int) != BinarizationPolicy::Otsu ==> forall|
            x: int,
            y: int,
        |
            0 <= x < width && 0 <= y < height ==> #[trigger] binary.cell(x, y) == adaptive_dark(
                gray@,
                width as int,
                height as int,
                31,
                x,
                y,
            ),
{
    binarize_with_policy(gray, width, height, initial_policy(width, height))
}

/// Binarize a grayscale image with Otsu's threshold.
pub fn binarize_otsu(gray: &[u8], width: usize, height: usize) -> (binary: BitMatrix)
    requires
        width * height + 7 <= usize::MAX,
        gray@.len() >= width * height,
        gray@.len() <= u32::MAX,
        pixel_sum(gray@) <= u32::MAX,
    ensures
        binary.wf(),
        binary.spec_width() == width,
        binary.spec_height() == height,
        exists|t: int|
            is_otsu_threshold(gray@, t) && forall|x: int, y: int|
                0 <= x < width && 0 <= y < height ==> #[trigger] binary.cell(x, y) == (gray_at(
                    gray@,
                    width as int,
                    x,
                    y,
                ) < t),
{
    otsu_binarize(gray, width, height)
}

/// Sum of the bytes of `s`.
pub open spec fn seq_sum(s: Seq<u8>) -> int
    decreases s.len(),
{
    if s.len() == 0 {
        0
    } else {
        seq_sum(s.drop_last()) + s.last()
    }
}

proof fn lemma_seq_sum_bound(s: Seq<u8>)
    ensures
        0 <= seq_sum(s) <= 255 * s.len(),
    decreases s.len(),
{
    if s.len() > 0 {
        lemma_seq_sum_bound(s.drop_last());
    }
}

/// Minimum, maximum and the floor of the mean of `gray`; for an empty input
/// the minimum is 255, the maximum 0 and the mean 0.
pub fn grayscale_stats(gray: &[u8]) -> (stats: GrayStats)
    requires
        255 * gray@.len() <= u64::MAX,
    ensures
        gray@.len() == 0 ==> stats == (GrayStats { min: 255, max: 0, avg: 0 }),
        gray@.len() > 0 ==> stats.min == seq_min(gray@) && stats.max == seq_max(gray@)
            && stats.avg as int == seq_sum(gray@) / (gray@.len() as int),
{
    if gray.len() == 0 {
        return GrayStats { min: 255, max: 0, avg: 0 };
    }
    let (min, max) = crate::pipeline::grayscale_views::min_max(gray);
    let mut sum: u64 = 0;
    let mut i: usize = 0;
    while i < gray.len()
        invariant
            0 <= i <= gray@.len(),
            255 * gray@.len() <= u64::MAX,
            sum as int == seq_sum(gray@.subrange(0, i as int)),
        decreases gray@.len() - i,
    {
        proof {
            lemma_seq_sum_bound(gray@.subrange(0, i as int));
            assert(gray@.subrange(0, i + 1).drop_last() =~= gray@.subrange(0, i as int));
        }
        sum += gray[i] as u64;
        i += 1;
    }
    proof {
        assert(gray@.subrange(0, gray@.len() as int) =~= gray@);
        lemma_seq_sum_bound(gray@);
        vstd::arithmetic::div_mod::lemma_div_is_ordered(seq_sum(gray@), 255 * (gray@.len() as int), gray@.len() as int);
        vstd::arithmetic::div_mod::lemma_div_multiples_vanish(255, gray@.len() as int);
        vstd::arithmetic::mul::lemma_mul_is_commutative(255, gray@.len() as int);
        vstd::arithmetic::div_mod::lemma_div_pos_is_pos(seq_sum(gray@), gray@.len() as int);
    }
    let avg = sum / (gray.len() as u64);
    GrayStats { min, max, avg: avg as u8 }
}

/// Whether `c` has the Unicode `White_Space` property, as
/// `char::is_whitespace` decides: tab through carriage return, space, next
/// line, no-break space, ogham space mark, en quad through hair space, line
/// and paragraph separators, narrow no-break space, medium mathematical
/// space and ideographic space.
pub open spec fn is_white_space(c: char) -> bool {
    let u = c as u32;
    ||| 0x09 <= u <= 0x0d
    ||| u == 0x20
    ||| u == 0x85
    ||| u == 0xa0
    ||| u == 0x1680
    ||| 0x2000 <= u <= 0x200a
    ||| u == 0x2028
    ||| u == 0x2029
    ||| u == 0x202f
    ||| u == 0x205f
    ||| u == 0x3000
}

/// `s` without its leading whitespace.
pub open spec fn trim_start(s: Seq<char>) -> Seq<char>
    decreases s.len(),
{
    if s.len() > 0 && is_white_space(s[0]) {
        trim_start(s.drop_first())
    } else {
        s
    }
}

/// `s` without its trailing whitespace.
pub open spec fn trim_end(s: Seq<char>) -> Seq<char>
    decreases s.len(),
{
    if s.len() > 0 && is_white_space(s.last()) {
        trim_end(s.drop_last())
    } else {
        s
    }
}

/// `s` with every non-overlapping occurrence of the non-empty `from`, found
/// left to right, replaced by `to`.
pub open spec fn replace_all(s: Seq<char>, from: Seq<char>, to: Seq<char>) -> Seq<char>
    decreases s.len(),
{
    if s.len() == 0 || from.len() == 0 {
        s
    } else if s.len() >= from.len() && s.subrange(0, from.len() as int) == from {
        to + replace_all(s.subrange(from.len() as int, s.len() as int), from, to)
    } else {
        seq![s[0]] + replace_all(s.drop_first(), from, to)
    }
}

/// Calls `str::trim`, which removes leading and trailing characters with the
/// `White_Space` property.
#[verifier::external_body]
fn str_trim(s: &str) -> (t: &str)
    ensures
        t@ == trim_end(trim_start(s@)),
        t@.len() > 0 ==> !is_white_space(t@[0]) && !is_white_space(t@.last()),
{
    s.trim()
}

/// Calls `str::replace`, which replaces every match of `from`, scanning left
/// to right without overlap, by `to`. An empty pattern is left out.
#[verifier::external_body]
pub(crate) fn str_replace(s: &str, from: &str, to: &str) -> (r: String)
    requires
        from@.len() > 0,
    ensures
        r@ == replace_all(s@, from@, to@),
{
    s.replace(from, to)
}

/// A payload label in normal form: surrounding whitespace removed and CRLF
/// line endings turned into LF.
pub open spec fn normalized_payload(payload: Seq<char>) -> Seq<char> {
    replace_all(trim_end(trim_start(payload)), seq!['\r', '\n'], seq!['\n'])
}

/// Normalize a payload label: trim surrounding whitespace and turn CRLF
/// line endings into LF.
pub fn normalize_payload(payload: &str) -> (n: String)
    ensures
        n@ == normalized_payload(payload@),
{
    let trimmed = str_trim(payload);
    let crlf = "\r\n";
    let lf = "\n";
    proof {
        reveal_strlit("\r\n");
        reveal_strlit("\n");
        assert(crlf@ =~= seq!['\r', '\n']);
        assert(lf@ =~= seq!['\n']);
    }
    str_replace(trimmed, crlf, lf)
}

/// The normal forms of a list of payloads, in order.
pub open spec fn normalized_views(payloads: Seq<String>) -> Seq<Seq<char>> {
    Seq::new(payloads.len(), |i: int| normalized_payload(payloads[i]@))
}

/// The characters of each string of a list, in order.
pub open spec fn string_views(strings: Seq<String>) -> Seq<Seq<char>> {
    strings.map_values(|s: String| s@)
}

/// The number of one-to-one exact matches between two payload lists: the
/// size of the multiset intersection of their normal forms.
pub open spec fn exact_match_count(expected: Seq<String>, predicted: Seq<String>) -> nat {
    normalized_views(expected).to_multiset().intersection_with(
        normalized_views(predicted).to_multiset(),
    ).len()
}

/// What one more predicted payload `x` does to the unmatched expected
/// payloads and to the matches.
proof fn lemma_match_step(a: Multiset<Seq<char>>, b: Multiset<Seq<char>>, x: Seq<char>)
    ensures
        a.difference_with(b).count(x) > 0 ==> a.difference_with(b.insert(x)) =~= a.difference_with(
            b,
        ).remove(x) && a.intersection_with(b.insert(x)).len() == a.intersection_with(b).len() + 1,
        a.difference_with(b).count(x) == 0 ==> a.difference_with(b.insert(x)) =~= a.difference_with(
            b,
        ) && a.intersection_with(b.insert(x)) =~= a.intersection_with(b),
{
    broadcast use {
        vstd::multiset::group_multiset_axioms,
        vstd::multiset::lemma_intersection_count,
        vstd::multiset::lemma_difference_count,
        vstd::multiset::lemma_insert_len,
    };

    if a.difference_with(b).count(x) > 0 {
        assert(a.intersection_with(b.insert(x)) =~= a.intersection_with(b).insert(x));
    }
}

/// Matching against the elements of `s` gives at most `s.len()` matches.
proof fn lemma_intersection_len_bound(a: Multiset<Seq<char>>, s: Seq<Seq<char>>)
    ensures
        a.intersection_with(s.to_multiset()).len() <= s.len(),
    decreases s.len(),
{
    broadcast use vstd::seq_lib::group_to_multiset_ensures;

    if s.len() == 0 {
        assert(a.intersection_with(s.to_multiset()) =~= Multiset::empty()) by {
            broadcast use {
                vstd::multiset::group_multiset_axioms,
                vstd::multiset::lemma_intersection_count,
            };
        }
    } else {
        let t = s.drop_last();
        assert(t.push(s.last()) =~= s);
        lemma_intersection_len_bound(a, t);
        lemma_match_step(a, t.to_multiset(), s.last());
    }
}

/// Exact matching is one-to-one: the count does not depend on which list
/// is the expected one, and it never exceeds the length of either list.
pub proof fn lemma_exact_match_count_symmetric_and_bounded(
    expected: Seq<String>,
    predicted: Seq<String>,
)
    ensures
        exact_match_count(expected, predicted) == exact_match_count(predicted, expected),
        exact_match_count(expected, predicted) <= expected.len(),
        exact_match_count(expected, predicted) <= predicted.len(),
{
    let a = normalized_views(expected);
    let b = normalized_views(predicted);
    assert(a.to_multiset().intersection_with(b.to_multiset()) =~= b.to_multiset().intersection_with(
        a.to_multiset(),
    )) by {
        broadcast use {
            vstd::multiset::group_multiset_axioms,
            vstd::multiset::lemma_intersection_count,
        };
    }
    lemma_intersection_len_bound(a.to_multiset(), b);
    lemma_intersection_len_bound(b.to_multiset(), a);
}

/// Score normalized payloads one-to-one by exact equality: each expected
/// payload can be matched by at most one predicted payload.
pub fn score_payloads(expected: &[String], predicted: &[String]) -> (score: PayloadScore)
    ensures
        score.exact_matches == exact_match_count(expected@, predicted@),
        score.expected == expected@.len(),
        score.predicted == predicted@.len(),
{
    broadcast use vstd::seq_lib::group_to_multiset_ensures;

    // The expected payloads still unmatched are kept in a vector, each
    // predicted payload striking out one equal entry, rather than counted in
    // a hash map keyed by the payload: vstd's `HashMap` specification holds
    // only for key types known to obey its key model (`obeys_key_model`,
    // given for primitive types and boxes of them), `String` is not among
    // them, and claiming it would take an unproved assumption, so nothing
    // about such a map's contents could be proved.
    let mut remaining: Vec<String> = Vec::new();
    let mut i: usize = 0;
    while i < expected.len()
        invariant
            i <= expected@.len(),
            remaining@.len() == i,
            forall|t: int| 0 <= t < i ==> #[trigger] remaining@[t]@ == normalized_payload(expected@[t]@),
        decreases expected@.len() - i,
    {
        remaining.push(normalize_payload(expected[i].as_str()));
        i += 1;
    }
    let ghost all_expected = normalized_views(expected@).to_multiset();
    let ghost all_predicted = normalized_views(predicted@);
    proof {
        assert(string_views(remaining@) =~= normalized_views(expected@));
        assert(all_predicted.take(0).to_multiset() =~= Multiset::empty()) by {
            broadcast use vstd::multiset::lemma_multiset_empty_len;

            assert(all_predicted.take(0).len() == 0);
        }
        assert(all_expected.difference_with(Multiset::empty()) =~= all_expected) by {
            broadcast use {
                vstd::multiset::group_multiset_axioms,
                vstd::multiset::lemma_difference_count,
            };
        }
        assert(all_expected.intersection_with(Multiset::empty()) =~= Multiset::empty()) by {
            broadcast use {
                vstd::multiset::group_multiset_axioms,
                vstd::multiset::lemma_intersection_count,
            };
        }
    }
    let mut exact_matches: usize = 0;
    let mut k: usize = 0;
    while k < predicted.len()
        invariant
            k <= predicted@.len(),
            all_predicted == normalized_views(predicted@),
            all_expected == normalized_views(expected@).to_multiset(),
            string_views(remaining@).to_multiset() =~= all_expected.difference_with(
                all_predicted.take(k as int).to_multiset(),
            ),
            exact_matches == all_expected.intersection_with(
                all_predicted.take(k as int).to_multiset(),
            ).len(),
            exact_matches <= k,
        decreases predicted@.len() - k,
    {
        let payload = normalize_payload(predicted[k].as_str());
        let ghost before = all_predicted.take(k as int).to_multiset();
        proof {
            assert(all_predicted.take(k as int).push(payload@) =~= all_predicted.take(k + 1));
            all_predicted.take(k as int).to_multiset_ensures();
            lemma_match_step(all_expected, before, payload@);
        }
        let mut j: usize = 0;
        let mut found = false;
        while j < remaining.len()
            invariant_except_break
                j <= remaining@.len(),
                !found,
                forall|t: int| 0 <= t < j ==> #[trigger] remaining@[t]@ != payload@,
            ensures
                j <= remaining@.len(),
                found ==> j < remaining@.len() && remaining@[j as int]@ == payload@,
                !found ==> forall|t: int|
                    0 <= t < remaining@.len() ==> #[trigger] remaining@[t]@ != payload@,
            decreases remaining@.len() - j,
        {
            if remaining[j] == payload {
                found = true;
                break;
            }
            j += 1;
        }
        if found {
            let ghost views = string_views(remaining@);
            proof {
                assert(views[j as int] == payload@);
                assert(views.contains(payload@));
                views.to_multiset_ensures();
            }
            remaining.remove(j);
            exact_matches += 1;
            proof {
                assert(string_views(remaining@) =~= views.remove(j as int));
                views.to_multiset_ensures();
                assert(views.remove(j as int).to_multiset() =~= views.to_multiset().remove(
                    views[j as int],
                ));
            }
        } else {
            proof {
                let views = string_views(remaining@);
                assert(!views.contains(payload@));
                views.to_multiset_ensures();
            }
        }
        k += 1;
    }
    proof {
        assert(all_predicted.take(predicted@.len() as int) =~= all_predicted);
    }
    PayloadScore { exact_matches, expected: expected.len(), predicted: predicted.len() }
}

/// The payload that the content of a payload-label file holds: one complete
/// payload, possibly over several lines, in normal form. Content that
/// normalizes to nothing is refused.
pub fn payload_from_label_content(content: &str) -> (r: Result<String, String>)
    ensures
        match r {
            Ok(payload) => payload@ == normalized_payload(content@) && payload@.len() > 0,
            Err(message) => normalized_payload(content@).len() == 0 && message@
                == "payload label is empty"@,
        },
{
    let payload = normalize_payload(content);
    if payload.as_str().is_empty() {
        Err("payload label is empty".to_owned())
    } else {
        Ok(payload)
    }
}

/// A meaningful line of a localization label file: the `SETS` marker, or a
/// line of numbers with how many there are. Blank lines, comments and lines
/// with a token that is not a number have no part in counting.
#[derive(Clone, Copy, Debug, PartialEq, Eq, Structural)]
pub enum LabelLine {
    Sets,
    Numbers(usize),
}

/// Whether a line describes a whole symbol: eight or more numbers.
pub open spec fn is_symbol_line(line: LabelLine) -> bool {
    line matches LabelLine::Numbers(k) && k >= 8
}

/// Whether a line describes one corner: exactly two numbers.
pub open spec fn is_corner_line(line: LabelLine) -> bool {
    line matches LabelLine::Numbers(k) && k == 2
}

/// Number of symbol lines in `lines`.
pub open spec fn symbol_lines(lines: Seq<LabelLine>) -> nat
    decreases lines.len(),
{
    if lines.len() == 0 {
        0
    } else {
        symbol_lines(lines.drop_last()) + if is_symbol_line(lines.last()) { 1nat } else { 0nat }
    }
}

/// Number of corner lines in `lines`.
pub open spec fn corner_lines(lines: Seq<LabelLine>) -> nat
    decreases lines.len(),
{
    if lines.len() == 0 {
        0
    } else {
        corner_lines(lines.drop_last()) + if is_corner_line(lines.last()) { 1nat } else { 0nat }
    }
}

/// Index of the first `SETS` marker, or the number of lines without one.
pub open spec fn first_sets(lines: Seq<LabelLine>) -> int
    decreases lines.len(),
{
    if lines.len() == 0 {
        0
    } else if lines[0] is Sets {
        0
    } else {
        1 + first_sets(lines.drop_first())
    }
}

/// The number of symbols a label file describes. After a `SETS` marker each
/// symbol line counts; without one, symbol lines count if there are any,
/// and otherwise every four corner lines make one symbol.
pub open spec fn spec_expected_qr_count(lines: Seq<LabelLine>) -> nat {
    let f = first_sets(lines);
    if f < lines.len() {
        symbol_lines(lines.subrange(f + 1, lines.len() as int))
    } else if symbol_lines(lines) > 0 {
        symbol_lines(lines)
    } else {
        corner_lines(lines) / 4
    }
}

proof fn lemma_first_sets(lines: Seq<LabelLine>, i: int)
    requires
        0 <= i <= lines.len(),
        forall|j: int| 0 <= j < i ==> !(#[trigger] lines[j] is Sets),
    ensures
        i < lines.len() && lines[i] is Sets ==> first_sets(lines) == i,
        i == lines.len() ==> first_sets(lines) == lines.len(),
    decreases i,
{
    if i > 0 {
        let rest = lines.drop_first();
        assert forall|j: int| 0 <= j < i - 1 implies !(#[trigger] rest[j] is Sets) by {
            assert(rest[j] == lines[j + 1]);
        }
        lemma_first_sets(rest, i - 1);
        assert(!(lines[0] is Sets));
    }
}

proof fn lemma_line_counts_step(lines: Seq<LabelLine>, from: int, to: int)
    requires
        0 <= from <= to < lines.len(),
    ensures
        symbol_lines(lines.subrange(from, to + 1)) == symbol_lines(lines.subrange(from, to)) + if is_symbol_line(lines[to]) { 1nat } else { 0nat },
        corner_lines(lines.subrange(from, to + 1)) == corner_lines(lines.subrange(from, to)) + if is_corner_line(lines[to]) { 1nat } else { 0nat },
{
    assert(lines.subrange(from, to + 1).drop_last() =~= lines.subrange(from, to));
}

/// Count the symbols a localization label file describes, from its
/// meaningful lines in file order.
pub fn expected_qr_count(lines: &[LabelLine]) -> (count: usize)
    ensures
        count == spec_expected_qr_count(lines@),
{
    let n = lines.len();
    let mut f: usize = 0;
    while f < n && !matches!(lines[f], LabelLine::Sets)
        invariant
            f <= n,
            n == lines@.len(),
            forall|j: int| 0 <= j < f ==> !(#[trigger] lines@[j] is Sets),
        decreases n - f,
    {
        f += 1;
    }
    proof {
        lemma_first_sets(lines@, f as int);
    }
    let start: usize = if f < n { f + 1 } else { 0 };
    let mut symbols: usize = 0;
    let mut corners: usize = 0;
    let mut k: usize = start;
    proof {
        assert(lines@.subrange(start as int, start as int) =~= Seq::<LabelLine>::empty());
    }
    while k < n
        invariant
            start <= k <= n,
            n == lines@.len(),
            symbols == symbol_lines(lines@.subrange(start as int, k as int)),
            corners == corner_lines(lines@.subrange(start as int, k as int)),
            symbols <= k - start,
            corners <= k - start,
        decreases n - k,
    {
        proof {
            lemma_line_counts_step(lines@, start as int, k as int);
        }
        match lines[k] {
            LabelLine::Numbers(c) => {
                if c >= 8 {
                    symbols += 1;
                } else if c == 2 {
                    corners += 1;
                }
            },
            LabelLine::Sets => {},
        }
        k += 1;
    }
    proof {
        assert(lines@.subrange(0, n as int) =~= lines@);
    }
    if f < n {
        symbols
    } else if symbols > 0 {
        symbols
    } else {
        corners / 4
    }
}

} // verus!
