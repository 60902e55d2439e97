//! Per-stage counters of a detection run, and the counters a run keeps
//! across its binarization attempts.

use vstd::prelude::*;

verus! {

/// How many items each stage of the pipeline produced.
#[derive(Debug, Clone, PartialEq, Eq, Structural)]
pub struct StageCounters {
    pub proposals: usize,
    pub hypotheses: usize,
    pub refined: usize,
    pub decode_candidates: usize,
    pub accepted: usize,
}

impl StageCounters {
    /// Every counter at zero.
    pub fn zero() -> (c: Self)
        ensures
            c == (StageCounters {
                proposals: 0,
                hypotheses: 0,
                refined: 0,
                decode_candidates: 0,
                accepted: 0,
            }),
    {
        StageCounters { proposals: 0, hypotheses: 0, refined: 0, decode_candidates: 0, accepted: 0 }
    }
}


/// The integer and boolean counters of one detection run. A run tries
/// several binarizations; each stage keeps its high-water mark across them,
/// and attempt counters add up.
#[derive(Debug, Clone)]
pub struct TelemetryCounters {
    /// Whether binarization produced a non-empty binary matrix.
    pub binarize_ok: bool,
    /// Peak number of finder patterns detected across all binarization attempts.
    pub finder_patterns_found: usize,
    /// Peak number of valid groups (triplets) formed from finder patterns.
    pub groups_found: usize,
    /// Number of groups where a perspective transform could be built.
    pub transforms_built: usize,
    /// Number of sampled matrix candidates with BCH-valid format information.
    pub format_extracted: usize,
    /// BCH distances of observed format candidates: 0, 1, 2, 3.
    pub format_bch_distance_hist: [usize; 4],
    /// Candidate payload paths that reached Reed-Solomon correction.
    pub rs_candidate_attempts: usize,
    /// Candidate paths rejected because remainder bits were non-zero after unmasking.
    pub nonzero_remainder_bit_rejections: usize,
    /// Individual Reed-Solomon block decodes attempted.
    pub rs_block_attempts: usize,
    /// Individual Reed-Solomon blocks corrected.
    pub rs_block_successes: usize,
    /// Individual Reed-Solomon blocks that stayed uncorrectable.
    pub rs_block_failures: usize,
    /// Number of groups where Reed-Solomon decoding succeeded.
    pub rs_decode_ok: usize,
    /// Number of QR codes whose payload parsed into valid content.
    pub payload_decoded: usize,
    /// Corrected payloads rejected for an unsupported content mode.
    pub unsupported_content: usize,
    /// Decoder attempts made, one per transform or group try.
    pub decode_attempts: usize,
    /// Candidate groups scored before trimming.
    pub candidate_groups_scored: usize,
    /// Histogram of candidate group scores: below 2, 2 to 3, 3 to 5, 5 and above.
    pub candidate_score_buckets: [usize; 4],
    /// The final number of results.
    pub qr_codes_found: usize,
    /// Candidate decodes skipped for the decode budget.
    pub budget_skips: usize,
    /// Decode attempts used in the high-confidence lane.
    pub budget_lane_high: usize,
    /// Decode attempts used in the medium-confidence lane.
    pub budget_lane_medium: usize,
    /// Decode attempts used in the low-confidence lane.
    pub budget_lane_low: usize,
    /// Fallbacks from Otsu to adaptive(31).
    pub bin_fallback_otsu_to_adaptive31: usize,
    /// Fallbacks from adaptive(31) to adaptive(21).
    pub bin_fallback_adaptive31_to_adaptive21: usize,
    /// Successful decodes on a fallback binarization.
    pub bin_fallback_successes: usize,
    /// Whether the geometry rerank path was active.
    pub rerank_enabled: bool,
    /// Top-1 reranked candidate decode attempts.
    pub rerank_top1_attempts: usize,
    /// Successful decodes of the top-1 reranked candidate.
    pub rerank_top1_successes: usize,
    /// Candidate groups rejected during rerank.
    pub rerank_transform_reject_count: usize,
    /// Whether saturation-aware scoring was enabled.
    pub saturation_mask_enabled: bool,
    /// Successful decodes influenced by saturation-aware scoring.
    pub saturation_mask_decode_successes: usize,
    /// Region normalization fallback attempts.
    pub roi_norm_attempts: usize,
    /// Successful decodes from region normalization.
    pub roi_norm_successes: usize,
    /// Times region normalization was skipped.
    pub roi_norm_skipped: usize,
    /// Two-finder fallback attempts.
    pub two_finder_attempts: usize,
    /// Successful decodes from the two-finder fallback.
    pub two_finder_successes: usize,
    /// Strategy profile chosen by the router.
    pub strategy_profile: String,
    /// Spatial regions considered for region-first decoding.
    pub regions_considered: usize,
    /// Whether the router enabled multi-region decoding.
    pub router_multi_region: bool,
    /// Successful decodes from region-routed candidates.
    pub router_region_decodes: usize,
    /// Decodes rejected by the acceptance threshold.
    pub acceptance_rejected: usize,
    /// Deskew decode attempts.
    pub deskew_attempts: usize,
    /// Successful deskew recoveries.
    pub deskew_successes: usize,
    /// High-version precision decode attempts.
    pub high_version_precision_attempts: usize,
    /// Recovery-mode decode attempts.
    pub recovery_mode_attempts: usize,
    /// Multi-scale retry decode attempts.
    pub scale_retry_attempts: usize,
    /// Successful multi-scale retries.
    pub scale_retry_successes: usize,
    /// Candidates skipped from multi-scale retry for the budget.
    pub scale_retry_skipped_by_budget: usize,
    /// High-version subpixel attempts.
    pub hv_subpixel_attempts: usize,
    /// High-version refinement attempts.
    pub hv_refine_attempts: usize,
    /// Successful high-version refinement decodes.
    pub hv_refine_successes: usize,
    /// Reed-Solomon erasure decode attempts.
    pub rs_erasure_attempts: usize,
    /// Successful Reed-Solomon erasure decodes.
    pub rs_erasure_successes: usize,
    /// Erasure counts: 1, 2 to 3, 4 to 6, 7 and more.
    pub rs_erasure_count_hist: [usize; 4],
    /// Candidate decode branches skipped by the time budget.
    pub phase11_time_budget_skips: usize,
}

/// Every counter at zero, every flag clear, no strategy profile.
pub open spec fn counters_cleared(c: TelemetryCounters) -> bool {
    &&& !c.binarize_ok
    &&& c.finder_patterns_found == 0
    &&& c.groups_found == 0
    &&& c.transforms_built == 0
    &&& c.format_extracted == 0
    &&& c.format_bch_distance_hist@ == seq![0usize, 0, 0, 0]
    &&& c.rs_candidate_attempts == 0
    &&& c.nonzero_remainder_bit_rejections == 0
    &&& c.rs_block_attempts == 0
    &&& c.rs_block_successes == 0
    &&& c.rs_block_failures == 0
    &&& c.rs_decode_ok == 0
    &&& c.payload_decoded == 0
    &&& c.unsupported_content == 0
    &&& c.decode_attempts == 0
    &&& c.candidate_groups_scored == 0
    &&& c.candidate_score_buckets@ == seq![0usize, 0, 0, 0]
    &&& c.qr_codes_found == 0
    &&& c.budget_skips == 0
    &&& c.budget_lane_high == 0
    &&& c.budget_lane_medium == 0
    &&& c.budget_lane_low == 0
    &&& c.bin_fallback_otsu_to_adaptive31 == 0
    &&& c.bin_fallback_adaptive31_to_adaptive21 == 0
    &&& c.bin_fallback_successes == 0
    &&& !c.rerank_enabled
    &&& c.rerank_top1_attempts == 0
    &&& c.rerank_top1_successes == 0
    &&& c.rerank_transform_reject_count == 0
    &&& !c.saturation_mask_enabled
    &&& c.saturation_mask_decode_successes == 0
    &&& c.roi_norm_attempts == 0
    &&& c.roi_norm_successes == 0
    &&& c.roi_norm_skipped == 0
    &&& c.two_finder_attempts == 0
    &&& c.two_finder_successes == 0
    &&& c.strategy_profile@.len() == 0
    &&& c.regions_considered == 0
    &&& !c.router_multi_region
    &&& c.router_region_decodes == 0
    &&& c.acceptance_rejected == 0
    &&& c.deskew_attempts == 0
    &&& c.deskew_successes == 0
    &&& c.high_version_precision_attempts == 0
    &&& c.recovery_mode_attempts == 0
    &&& c.scale_retry_attempts == 0
    &&& c.scale_retry_successes == 0
    &&& c.scale_retry_skipped_by_budget == 0
    &&& c.hv_subpixel_attempts == 0
    &&& c.hv_refine_attempts == 0
    &&& c.hv_refine_successes == 0
    &&& c.rs_erasure_attempts == 0
    &&& c.rs_erasure_successes == 0
    &&& c.rs_erasure_count_hist@ == seq![0usize, 0, 0, 0]
    &&& c.phase11_time_budget_skips == 0
}

/// Every summed counter of `a` and `b` fits in a `usize`.
pub open spec fn merge_fits(a: TelemetryCounters, b: TelemetryCounters) -> bool {
    &&& forall|i: int| 0 <= i < 4 ==> #[trigger] a.format_bch_distance_hist@[i] + b.format_bch_distance_hist@[i] <= usize::MAX
    &&& a.rs_candidate_attempts + b.rs_candidate_attempts <= usize::MAX
    &&& a.nonzero_remainder_bit_rejections + b.nonzero_remainder_bit_rejections <= usize::MAX
    &&& a.rs_block_attempts + b.rs_block_attempts <= usize::MAX
    &&& a.rs_block_successes + b.rs_block_successes <= usize::MAX
    &&& a.rs_block_failures + b.rs_block_failures <= usize::MAX
    &&& a.unsupported_content + b.unsupported_content <= usize::MAX
    &&& a.decode_attempts + b.decode_attempts <= usize::MAX
    &&& a.candidate_groups_scored + b.candidate_groups_scored <= usize::MAX
    &&& forall|i: int| 0 <= i < 4 ==> #[trigger] a.candidate_score_buckets@[i] + b.candidate_score_buckets@[i] <= usize::MAX
    &&& a.budget_skips + b.budget_skips <= usize::MAX
    &&& a.budget_lane_high + b.budget_lane_high <= usize::MAX
    &&& a.budget_lane_medium + b.budget_lane_medium <= usize::MAX
    &&& a.budget_lane_low + b.budget_lane_low <= usize::MAX
    &&& a.bin_fallback_otsu_to_adaptive31 + b.bin_fallback_otsu_to_adaptive31 <= usize::MAX
    &&& a.bin_fallback_adaptive31_to_adaptive21 + b.bin_fallback_adaptive31_to_adaptive21 <= usize::MAX
    &&& a.bin_fallback_successes + b.bin_fallback_successes <= usize::MAX
    &&& a.rerank_top1_attempts + b.rerank_top1_attempts <= usize::MAX
    &&& a.rerank_top1_successes + b.rerank_top1_successes <= usize::MAX
    &&& a.rerank_transform_reject_count + b.rerank_transform_reject_count <= usize::MAX
    &&& a.saturation_mask_decode_successes + b.saturation_mask_decode_successes <= usize::MAX
    &&& a.roi_norm_attempts + b.roi_norm_attempts <= usize::MAX
    &&& a.roi_norm_successes + b.roi_norm_successes <= usize::MAX
    &&& a.roi_norm_skipped + b.roi_norm_skipped <= usize::MAX
    &&& a.two_finder_attempts + b.two_finder_attempts <= usize::MAX
    &&& a.two_finder_successes + b.two_finder_successes <= usize::MAX
    &&& a.router_region_decodes + b.router_region_decodes <= usize::MAX
    &&& a.acceptance_rejected + b.acceptance_rejected <= usize::MAX
    &&& a.deskew_attempts + b.deskew_attempts <= usize::MAX
    &&& a.deskew_successes + b.deskew_successes <= usize::MAX
    &&& a.high_version_precision_attempts + b.high_version_precision_attempts <= usize::MAX
    &&& a.recovery_mode_attempts + b.recovery_mode_attempts <= usize::MAX
    &&& a.scale_retry_attempts + b.scale_retry_attempts <= usize::MAX
    &&& a.scale_retry_successes + b.scale_retry_successes <= usize::MAX
    &&& a.scale_retry_skipped_by_budget + b.scale_retry_skipped_by_budget <= usize::MAX
    &&& a.hv_subpixel_attempts + b.hv_subpixel_attempts <= usize::MAX
    &&& a.hv_refine_attempts + b.hv_refine_attempts <= usize::MAX
    &&& a.hv_refine_successes + b.hv_refine_successes <= usize::MAX
    &&& a.rs_erasure_attempts + b.rs_erasure_attempts <= usize::MAX
    &&& a.rs_erasure_successes + b.rs_erasure_successes <= usize::MAX
    &&& forall|i: int| 0 <= i < 4 ==> #[trigger] a.rs_erasure_count_hist@[i] + b.rs_erasure_count_hist@[i] <= usize::MAX
    &&& a.phase11_time_budget_skips + b.phase11_time_budget_skips <= usize::MAX
}

/// `c` is `a` merged with `b`: the final counters of `a` kept, each
/// high-water mark the larger of the two, each flag set if either is, each
/// attempt counter and histogram bin the sum, and the strategy profile
/// `a`'s unless only `b` has one.
pub open spec fn merged_counters(a: TelemetryCounters, b: TelemetryCounters, c: TelemetryCounters) -> bool {
    &&& c.binarize_ok == a.binarize_ok
    &&& c.finder_patterns_found == a.finder_patterns_found
    &&& c.groups_found == if a.groups_found >= b.groups_found { a.groups_found } else { b.groups_found }
    &&& c.transforms_built == if a.transforms_built >= b.transforms_built { a.transforms_built } else { b.transforms_built }
    &&& c.format_extracted == if a.format_extracted >= b.format_extracted { a.format_extracted } else { b.format_extracted }
    &&& c.format_bch_distance_hist@.len() == 4
    &&& forall|i: int| 0 <= i < 4 ==> #[trigger] c.format_bch_distance_hist@[i] == a.format_bch_distance_hist@[i] + b.format_bch_distance_hist@[i]
    &&& c.rs_candidate_attempts == a.rs_candidate_attempts + b.rs_candidate_attempts
    &&& c.nonzero_remainder_bit_rejections == a.nonzero_remainder_bit_rejections + b.nonzero_remainder_bit_rejections
    &&& c.rs_block_attempts == a.rs_block_attempts + b.rs_block_attempts
    &&& c.rs_block_successes == a.rs_block_successes + b.rs_block_successes
    &&& c.rs_block_failures == a.rs_block_failures + b.rs_block_failures
    &&& c.rs_decode_ok == if a.rs_decode_ok >= b.rs_decode_ok { a.rs_decode_ok } else { b.rs_decode_ok }
    &&& c.payload_decoded == if a.payload_decoded >= b.payload_decoded { a.payload_decoded } else { b.payload_decoded }
    &&& c.unsupported_content == a.unsupported_content + b.unsupported_content
    &&& c.decode_attempts == a.decode_attempts + b.decode_attempts
    &&& c.candidate_groups_scored == a.candidate_groups_scored + b.candidate_groups_scored
    &&& c.candidate_score_buckets@.len() == 4
    &&& forall|i: int| 0 <= i < 4 ==> #[trigger] c.candidate_score_buckets@[i] == a.candidate_score_buckets@[i] + b.candidate_score_buckets@[i]
    &&& c.qr_codes_found == a.qr_codes_found
    &&& c.budget_skips == a.budget_skips + b.budget_skips
    &&& c.budget_lane_high == a.budget_lane_high + b.budget_lane_high
    &&& c.budget_lane_medium == a.budget_lane_medium + b.budget_lane_medium
    &&& c.budget_lane_low == a.budget_lane_low + b.budget_lane_low
    &&& c.bin_fallback_otsu_to_adaptive31 == a.bin_fallback_otsu_to_adaptive31 + b.bin_fallback_otsu_to_adaptive31
    &&& c.bin_fallback_adaptive31_to_adaptive21 == a.bin_fallback_adaptive31_to_adaptive21 + b.bin_fallback_adaptive31_to_adaptive21
    &&& c.bin_fallback_successes == a.bin_fallback_successes + b.bin_fallback_successes
    &&& c.rerank_enabled == (a.rerank_enabled || b.rerank_enabled)
    &&& c.rerank_top1_attempts == a.rerank_top1_attempts + b.rerank_top1_attempts
    &&& c.rerank_top1_successes == a.rerank_top1_successes + b.rerank_top1_successes
    &&& c.rerank_transform_reject_count == a.rerank_transform_reject_count + b.rerank_transform_reject_count
    &&& c.saturation_mask_enabled == (a.saturation_mask_enabled || b.saturation_mask_enabled)
    &&& c.saturation_mask_decode_successes == a.saturation_mask_decode_successes + b.saturation_mask_decode_successes
    &&& c.roi_norm_attempts == a.roi_norm_attempts + b.roi_norm_attempts
    &&& c.roi_norm_successes == a.roi_norm_successes + b.roi_norm_successes
    &&& c.roi_norm_skipped == a.roi_norm_skipped + b.roi_norm_skipped
    &&& c.two_finder_attempts == a.two_finder_attempts + b.two_finder_attempts
    &&& c.two_finder_successes == a.two_finder_successes + b.two_finder_successes
    &&& c.strategy_profile@ == if a.strategy_profile@.len() == 0 && b.strategy_profile@.len() > 0 { b.strategy_profile@ } else { a.strategy_profile@ }
    &&& c.regions_considered == if a.regions_considered >= b.regions_considered { a.regions_considered } else { b.regions_considered }
    &&& c.router_multi_region == (a.router_multi_region || b.router_multi_region)
    &&& c.router_region_decodes == a.router_region_decodes + b.router_region_decodes
    &&& c.acceptance_rejected == a.acceptance_rejected + b.acceptance_rejected
    &&& c.deskew_attempts == a.deskew_attempts + b.deskew_attempts
    &&& c.deskew_successes == a.deskew_successes + b.deskew_successes
    &&& c.high_version_precision_attempts == a.high_version_precision_attempts + b.high_version_precision_attempts
    &&& c.recovery_mode_attempts == a.recovery_mode_attempts + b.recovery_mode_attempts
    &&& c.scale_retry_attempts == a.scale_retry_attempts + b.scale_retry_attempts
    &&& c.scale_retry_successes == a.scale_retry_successes + b.scale_retry_successes
    &&& c.scale_retry_skipped_by_budget == a.scale_retry_skipped_by_budget + b.scale_retry_skipped_by_budget
    &&& c.hv_subpixel_attempts == a.hv_subpixel_attempts + b.hv_subpixel_attempts
    &&& c.hv_refine_attempts == a.hv_refine_attempts + b.hv_refine_attempts
    &&& c.hv_refine_successes == a.hv_refine_successes + b.hv_refine_successes
    &&& c.rs_erasure_attempts == a.rs_erasure_attempts + b.rs_erasure_attempts
    &&& c.rs_erasure_successes == a.rs_erasure_successes + b.rs_erasure_successes
    &&& c.rs_erasure_count_hist@.len() == 4
    &&& forall|i: int| 0 <= i < 4 ==> #[trigger] c.rs_erasure_count_hist@[i] == a.rs_erasure_count_hist@[i] + b.rs_erasure_count_hist@[i]
    &&& c.phase11_time_budget_skips == a.phase11_time_budget_skips + b.phase11_time_budget_skips
}

/// Bin-by-bin sum of two four-bin histograms.
fn sum_bins(a: &[usize; 4], b: &[usize; 4]) -> (s: [usize; 4])
    requires
        forall|i: int| 0 <= i < 4 ==> #[trigger] a@[i] + b@[i] <= usize::MAX,
    ensures
        s@.len() == 4,
        forall|i: int| 0 <= i < 4 ==> #[trigger] s@[i] == a@[i] + b@[i],
{
    let s = [a[0] + b[0], a[1] + b[1], a[2] + b[2], a[3] + b[3]];
    assert(s@ =~= seq![s[0], s[1], s[2], s[3]]);
    s
}

impl TelemetryCounters {
    /// Fold the counters of another binarization attempt into these: stage
    /// counts keep their high-water mark, attempt counts and histograms add
    /// up, flags are set if either is, and the strategy profile is taken from
    /// `other` only when none is set yet.
    pub fn merge_high_water_from(&mut self, other: &TelemetryCounters)
        requires
            merge_fits(*old(self), *other),
        ensures
            merged_counters(*old(self), *other, *final(self)),
    {
        let binarize_ok = self.binarize_ok;
        let finder_patterns_found = self.finder_patterns_found;
        let groups_found = if self.groups_found >= other.groups_found { self.groups_found } else { other.groups_found };
        let transforms_built = if self.transforms_built >= other.transforms_built { self.transforms_built } else { other.transforms_built };
        let format_extracted = if self.format_extracted >= other.format_extracted { self.format_extracted } else { other.format_extracted };
        let format_bch_distance_hist = sum_bins(&self.format_bch_distance_hist, &other.format_bch_distance_hist);
        let rs_candidate_attempts = self.rs_candidate_attempts + other.rs_candidate_attempts;
        let nonzero_remainder_bit_rejections = self.nonzero_remainder_bit_rejections + other.nonzero_remainder_bit_rejections;
        let rs_block_attempts = self.rs_block_attempts + other.rs_block_attempts;
        let rs_block_successes = self.rs_block_successes + other.rs_block_successes;
        let rs_block_failures = self.rs_block_failures + other.rs_block_failures;
        let rs_decode_ok = if self.rs_decode_ok >= other.rs_decode_ok { self.rs_decode_ok } else { other.rs_decode_ok };
        let payload_decoded = if self.payload_decoded >= other.payload_decoded { self.payload_decoded } else { other.payload_decoded };
        let unsupported_content = self.unsupported_content + other.unsupported_content;
        let decode_attempts = self.decode_attempts + other.decode_attempts;
        let candidate_groups_scored = self.candidate_groups_scored + other.candidate_groups_scored;
        let candidate_score_buckets = sum_bins(&self.candidate_score_buckets, &other.candidate_score_buckets);
        let qr_codes_found = self.qr_codes_found;
        let budget_skips = self.budget_skips + other.budget_skips;
        let budget_lane_high = self.budget_lane_high + other.budget_lane_high;
        let budget_lane_medium = self.budget_lane_medium + other.budget_lane_medium;
        let budget_lane_low = self.budget_lane_low + other.budget_lane_low;
        let bin_fallback_otsu_to_adaptive31 = self.bin_fallback_otsu_to_adaptive31 + other.bin_fallback_otsu_to_adaptive31;
        let bin_fallback_adaptive31_to_adaptive21 = self.bin_fallback_adaptive31_to_adaptive21 + other.bin_fallback_adaptive31_to_adaptive21;
        let bin_fallback_successes = self.bin_fallback_successes + other.bin_fallback_successes;
        let rerank_enabled = self.rerank_enabled || other.rerank_enabled;
        let rerank_top1_attempts = self.rerank_top1_attempts + other.rerank_top1_attempts;
        let rerank_top1_successes = self.rerank_top1_successes + other.rerank_top1_successes;
        let rerank_transform_reject_count = self.rerank_transform_reject_count + other.rerank_transform_reject_count;
        let saturation_mask_enabled = self.saturation_mask_enabled || other.saturation_mask_enabled;
        let saturation_mask_decode_successes = self.saturation_mask_decode_successes + other.saturation_mask_decode_successes;
        let roi_norm_attempts = self.roi_norm_attempts + other.roi_norm_attempts;
        let roi_norm_successes = self.roi_norm_successes + other.roi_norm_successes;
        let roi_norm_skipped = self.roi_norm_skipped + other.roi_norm_skipped;
        let two_finder_attempts = self.two_finder_attempts + other.two_finder_attempts;
        let two_finder_successes = self.two_finder_successes + other.two_finder_successes;
        let strategy_profile = if self.strategy_profile.as_str().is_empty() && !other.strategy_profile.as_str().is_empty() { other.strategy_profile.clone() } else { self.strategy_profile.clone() };
        let regions_considered = if self.regions_considered >= other.regions_considered { self.regions_considered } else { other.regions_considered };
        let router_multi_region = self.router_multi_region || other.router_multi_region;
        let router_region_decodes = self.router_region_decodes + other.router_region_decodes;
        let acceptance_rejected = self.acceptance_rejected + other.acceptance_rejected;
        let deskew_attempts = self.deskew_attempts + other.deskew_attempts;
        let deskew_successes = self.deskew_successes + other.deskew_successes;
        let high_version_precision_attempts = self.high_version_precision_attempts + other.high_version_precision_attempts;
        let recovery_mode_attempts = self.recovery_mode_attempts + other.recovery_mode_attempts;
        let scale_retry_attempts = self.scale_retry_attempts + other.scale_retry_attempts;
        let scale_retry_successes = self.scale_retry_successes + other.scale_retry_successes;
        let scale_retry_skipped_by_budget = self.scale_retry_skipped_by_budget + other.scale_retry_skipped_by_budget;
        let hv_subpixel_attempts = self.hv_subpixel_attempts + other.hv_subpixel_attempts;
        let hv_refine_attempts = self.hv_refine_attempts + other.hv_refine_attempts;
        let hv_refine_successes = self.hv_refine_successes + other.hv_refine_successes;
        let rs_erasure_attempts = self.rs_erasure_attempts + other.rs_erasure_attempts;
        let rs_erasure_successes = self.rs_erasure_successes + other.rs_erasure_successes;
        let rs_erasure_count_hist = sum_bins(&self.rs_erasure_count_hist, &other.rs_erasure_count_hist);
        let phase11_time_budget_skips = self.phase11_time_budget_skips + other.phase11_time_budget_skips;
        *self = TelemetryCounters {
            binarize_ok,
            finder_patterns_found,
            groups_found,
            transforms_built,
            format_extracted,
            format_bch_distance_hist,
            rs_candidate_attempts,
            nonzero_remainder_bit_rejections,
            rs_block_attempts,
            rs_block_successes,
            rs_block_failures,
            rs_decode_ok,
            payload_decoded,
            unsupported_content,
            decode_attempts,
            candidate_groups_scored,
            candidate_score_buckets,
            qr_codes_found,
            budget_skips,
            budget_lane_high,
            budget_lane_medium,
            budget_lane_low,
            bin_fallback_otsu_to_adaptive31,
            bin_fallback_adaptive31_to_adaptive21,
            bin_fallback_successes,
            rerank_enabled,
            rerank_top1_attempts,
            rerank_top1_successes,
            rerank_transform_reject_count,
            saturation_mask_enabled,
            saturation_mask_decode_successes,
            roi_norm_attempts,
            roi_norm_successes,
            roi_norm_skipped,
            two_finder_attempts,
            two_finder_successes,
            strategy_profile,
            regions_considered,
            router_multi_region,
            router_region_decodes,
            acceptance_rejected,
            deskew_attempts,
            deskew_successes,
            high_version_precision_attempts,
            recovery_mode_attempts,
            scale_retry_attempts,
            scale_retry_successes,
            scale_retry_skipped_by_budget,
            hv_subpixel_attempts,
            hv_refine_attempts,
            hv_refine_successes,
            rs_erasure_attempts,
            rs_erasure_successes,
            rs_erasure_count_hist,
            phase11_time_budget_skips,
        };
    }
}

impl Default for TelemetryCounters {
    fn default() -> (c: Self)
        ensures
            counters_cleared(c),
    {
        let c = TelemetryCounters {
            binarize_ok: false,
            finder_patterns_found: 0,
            groups_found: 0,
            transforms_built: 0,
            format_extracted: 0,
            format_bch_distance_hist: [0, 0, 0, 0],
            rs_candidate_attempts: 0,
            nonzero_remainder_bit_rejections: 0,
            rs_block_attempts: 0,
            rs_block_successes: 0,
            rs_block_failures: 0,
            rs_decode_ok: 0,
            payload_decoded: 0,
            unsupported_content: 0,
            decode_attempts: 0,
            candidate_groups_scored: 0,
            candidate_score_buckets: [0, 0, 0, 0],
            qr_codes_found: 0,
            budget_skips: 0,
            budget_lane_high: 0,
            budget_lane_medium: 0,
            budget_lane_low: 0,
            bin_fallback_otsu_to_adaptive31: 0,
            bin_fallback_adaptive31_to_adaptive21: 0,
            bin_fallback_successes: 0,
            rerank_enabled: false,
            rerank_top1_attempts: 0,
            rerank_top1_successes: 0,
            rerank_transform_reject_count: 0,
            saturation_mask_enabled: false,
            saturation_mask_decode_successes: 0,
            roi_norm_attempts: 0,
            roi_norm_successes: 0,
            roi_norm_skipped: 0,
            two_finder_attempts: 0,
            two_finder_successes: 0,
            strategy_profile: String::new(),
            regions_considered: 0,
            router_multi_region: false,
            router_region_decodes: 0,
            acceptance_rejected: 0,
            deskew_attempts: 0,
            deskew_successes: 0,
            high_version_precision_attempts: 0,
            recovery_mode_attempts: 0,
            scale_retry_attempts: 0,
            scale_retry_successes: 0,
            scale_retry_skipped_by_budget: 0,
            hv_subpixel_attempts: 0,
            hv_refine_attempts: 0,
            hv_refine_successes: 0,
            rs_erasure_attempts: 0,
            rs_erasure_successes: 0,
            rs_erasure_count_hist: [0, 0, 0, 0],
            phase11_time_budget_skips: 0,
        };
        assert(c.format_bch_distance_hist@ =~= seq![0usize, 0, 0, 0]);
        assert(c.candidate_score_buckets@ =~= seq![0usize, 0, 0, 0]);
        assert(c.rs_erasure_count_hist@ =~= seq![0usize, 0, 0, 0]);
        c
    }
}

} // verus!
