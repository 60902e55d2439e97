//! The budget of decode attempts for one image: a bounded number of locator
//! runs and an optional fallback deadline, and the rules that size the
//! fallback and rescue passes by the image size and the time left.

use vstd::prelude::*;
use std::time::{Duration, Instant};
use crate::options::duration_nanos;
use crate::pipeline::symbol_decode::{DecodedSymbol, decode_from_grayscale, decoded_symbols, quirc_identified, decoded_view, locatable_size};
use crate::pipeline::grayscale_views::{
    contrast_stretch_grayscale, contrast_stretched, invert_grayscale, lemma_contrast_stretched,
    min_int, negative, rgb_channel_plane,
};

verus! {

/// Locator runs allowed for one image.
pub const MAX_IDENTIFY_ATTEMPTS_PER_IMAGE: usize = 16;

/// Images above this many pixels get no fallback pass.
pub const FALLBACK_MAX_PIXELS: usize = 16_000_000;

/// Images above this many pixels get no whole-image variants.
pub const FALLBACK_FULL_IMAGE_VARIANT_MAX_PIXELS: usize = 3_500_000;

/// Images up to this many pixels may get the grid rescue.
pub const GRID_RESCUE_MAX_PIXELS: usize = 2_500_000;

/// Images up to this many pixels may get the colour-channel rescue.
pub const CHANNEL_RESCUE_MAX_PIXELS: usize = 2_500_000;

/// Images up to this many pixels may get the upscaled rescue.
pub const UPSCALE_RESCUE_MAX_PIXELS: usize = 2_000_000;

/// Milliseconds that must be left for the grid rescue.
pub const RESCUE_MIN_REMAINING_MS_GRID: u128 = 280;

/// Milliseconds that must be left for the colour-channel rescue.
pub const RESCUE_MIN_REMAINING_MS_CHANNEL: u128 = 220;

/// Milliseconds that must be left for the upscaled rescue.
pub const RESCUE_MIN_REMAINING_MS_UPSCALE: u128 = 260;

/// Milliseconds that must be left for the whole-image variants.
pub const RESCUE_MIN_REMAINING_MS_FULL_VARIANTS: u128 = 180;

/// Images up to this many pixels are decoded at full size.
pub const BASE_DECODE_MAX_PIXELS: usize = 3_000_000;

/// Below this many milliseconds left, larger images are always scaled down.
pub const BASE_DECODE_REMAINING_MS_TIGHT: u128 = 260;

/// Below this many milliseconds left, images are scaled down the most.
pub const BASE_DECODE_REMAINING_MS_CRITICAL: u128 = 140;

/// Images above this many pixels are scaled down when time is tight.
pub const BASE_DECODE_FORCE_RESIZE_PIXELS_TIGHT: usize = 1_600_000;

/// `width * height`, saturating at `usize::MAX`.
pub open spec fn pixel_count(width: usize, height: usize) -> int {
    if width * height <= usize::MAX {
        width * height
    } else {
        usize::MAX as int
    }
}

fn saturating_pixels(width: usize, height: usize) -> (p: usize)
    ensures
        p == pixel_count(width, height),
{
    match width.checked_mul(height) {
        Some(p) => p,
        None => usize::MAX,
    }
}

/// The fallback passes run only when the base view decoded at most this
/// many symbols.
pub const FALLBACK_MAX_BASE_DECODES: usize = 1;

/// Whether the fallback passes run after the base view decoded
/// `decoded_count` symbols: fewer than the candidates asked for and at most
/// `FALLBACK_MAX_BASE_DECODES`, an image of at most `FALLBACK_MAX_PIXELS`,
/// and strong finder evidence in the scene (a strong hypothesis or
/// proposal, which the caller judges from its scores).
pub fn fallback_wanted(
    decoded_count: usize,
    strong_evidence: bool,
    width: usize,
    height: usize,
    max_candidates: usize,
) -> (wanted: bool)
    ensures
        wanted == (decoded_count < max_candidates && decoded_count <= FALLBACK_MAX_BASE_DECODES
            && pixel_count(width, height) <= FALLBACK_MAX_PIXELS && strong_evidence),
{
    if decoded_count >= max_candidates || decoded_count > FALLBACK_MAX_BASE_DECODES {
        return false;
    }
    if saturating_pixels(width, height) > FALLBACK_MAX_PIXELS {
        return false;
    }
    strong_evidence
}

/// A reading of the monotonic clock, carried through unread.
#[verifier::external_type_specification]
#[verifier::external_body]
pub struct ExInstant(Instant);

/// Calls `Instant::now`; the clock decides, so nothing is stated.
#[verifier::external_body]
fn now() -> Instant {
    Instant::now()
}

/// Compares two instants with `>=`; which of two clock readings is later
/// is not stated.
#[verifier::external_body]
fn at_or_after(a: &Instant, b: &Instant) -> bool {
    *a >= *b
}

/// Calls `Instant::saturating_duration_since`: the time from `earlier` to
/// `later`, zero when `earlier` is not before `later`. Not stated.
#[verifier::external_body]
fn time_from(later: &Instant, earlier: &Instant) -> Duration {
    later.saturating_duration_since(*earlier)
}

/// Calls `Duration::as_millis`: the whole milliseconds of a duration, its
/// nanoseconds divided by a million.
#[verifier::external_body]
fn whole_millis(d: &Duration) -> (ms: u128)
    ensures
        ms == duration_nanos(*d) / 1_000_000,
{
    d.as_millis()
}

/// The sets of window sizes, in pixels, that fallback crops are cut at.
#[derive(Clone, Copy, Debug, PartialEq, Eq, Structural)]
pub enum WindowSet {
    Tight,
    Large,
    Standard,
}

/// The window sizes of a set, smallest first.
pub open spec fn window_sizes(set: WindowSet) -> Seq<usize> {
    match set {
        WindowSet::Tight => seq![224usize, 320],
        WindowSet::Large => seq![256usize, 384],
        WindowSet::Standard => seq![224usize, 320, 512],
    }
}

impl WindowSet {
    /// The window sizes of this set, smallest first.
    pub fn sizes(&self) -> (sizes: Vec<usize>)
        ensures
            sizes@ == window_sizes(*self),
    {
        match self {
            WindowSet::Tight => vec![224, 320],
            WindowSet::Large => vec![256, 384],
            WindowSet::Standard => vec![224, 320, 512],
        }
    }
}

/// How far the fallback pass may go on one image.
#[derive(Clone, Copy, Debug, PartialEq, Eq, Structural)]
pub struct FallbackPolicy {
    pub max_hypotheses: usize,
    pub max_proposals: usize,
    pub max_results: usize,
    pub windows: WindowSet,
    pub allow_full_image_variants: bool,
}

/// The fallback policy for an image of `width` by `height` pixels with
/// `remaining_ms` whole milliseconds left before the fallback deadline, or
/// no deadline at all.
pub open spec fn spec_fallback_policy(width: usize, height: usize, remaining_ms: Option<u128>) -> FallbackPolicy {
    let pixels = pixel_count(width, height);
    if remaining_ms matches Some(ms) && ms < RESCUE_MIN_REMAINING_MS_FULL_VARIANTS {
        FallbackPolicy {
            max_hypotheses: 2,
            max_proposals: 6,
            max_results: 24,
            windows: WindowSet::Tight,
            allow_full_image_variants: false,
        }
    } else if pixels > 8_000_000 {
        FallbackPolicy {
            max_hypotheses: 0,
            max_proposals: 8,
            max_results: 32,
            windows: WindowSet::Large,
            allow_full_image_variants: false,
        }
    } else if pixels > FALLBACK_FULL_IMAGE_VARIANT_MAX_PIXELS {
        FallbackPolicy {
            max_hypotheses: 4,
            max_proposals: 12,
            max_results: 48,
            windows: WindowSet::Standard,
            allow_full_image_variants: false,
        }
    } else {
        FallbackPolicy {
            max_hypotheses: 8,
            max_proposals: 16,
            max_results: 64,
            windows: WindowSet::Standard,
            allow_full_image_variants: true,
        }
    }
}

/// The fallback policy for an image of `width` by `height` pixels, given
/// the whole milliseconds left before the fallback deadline, if there is
/// one: little time left gives the tight policy, then larger images get
/// fewer hypotheses and no whole-image variants.
pub fn fallback_policy_for(width: usize, height: usize, remaining_ms: Option<u128>) -> (p: FallbackPolicy)
    ensures
        p == spec_fallback_policy(width, height, remaining_ms),
{
    let pixels = saturating_pixels(width, height);
    let tight = match remaining_ms {
        Some(ms) => ms < RESCUE_MIN_REMAINING_MS_FULL_VARIANTS,
        None => false,
    };
    if tight {
        return FallbackPolicy {
            max_hypotheses: 2,
            max_proposals: 6,
            max_results: 24,
            windows: WindowSet::Tight,
            allow_full_image_variants: false,
        };
    }
    if pixels > 8_000_000 {
        return FallbackPolicy {
            max_hypotheses: 0,
            max_proposals: 8,
            max_results: 32,
            windows: WindowSet::Large,
            allow_full_image_variants: false,
        };
    }
    if pixels > FALLBACK_FULL_IMAGE_VARIANT_MAX_PIXELS {
        return FallbackPolicy {
            max_hypotheses: 4,
            max_proposals: 12,
            max_results: 48,
            windows: WindowSet::Standard,
            allow_full_image_variants: false,
        };
    }
    FallbackPolicy {
        max_hypotheses: 8,
        max_proposals: 16,
        max_results: 64,
        windows: WindowSet::Standard,
        allow_full_image_variants: true,
    }
}

/// The largest side an image is scaled to before the base decode, given the
/// whole milliseconds left: 900, 1100 or 1400 pixels as time runs short,
/// 1800 otherwise.
pub open spec fn spec_base_decode_max_dim(remaining_ms: Option<u128>) -> usize {
    match remaining_ms {
        Some(ms) => if ms < BASE_DECODE_REMAINING_MS_CRITICAL {
            900
        } else if ms < BASE_DECODE_REMAINING_MS_TIGHT {
            1100
        } else if ms < RESCUE_MIN_REMAINING_MS_GRID {
            1400
        } else {
            1800
        },
        None => 1800,
    }
}

/// The largest side an image is scaled to before the base decode.
pub fn base_decode_max_dim_for_budget(remaining_ms: Option<u128>) -> (d: usize)
    ensures
        d == spec_base_decode_max_dim(remaining_ms),
{
    match remaining_ms {
        Some(ms) => {
            if ms < BASE_DECODE_REMAINING_MS_CRITICAL {
                900
            } else if ms < BASE_DECODE_REMAINING_MS_TIGHT {
                1100
            } else if ms < RESCUE_MIN_REMAINING_MS_GRID {
                1400
            } else {
                1800
            }
        },
        None => 1800,
    }
}

/// Whether the base decode runs on the image as it is rather than on a
/// scaled-down copy: small enough, and not large while time is tight.
pub open spec fn spec_base_decode_at_full_size(width: usize, height: usize, remaining_ms: Option<u128>) -> bool {
    let pixels = pixel_count(width, height);
    let forced = remaining_ms matches Some(ms) && ms < BASE_DECODE_REMAINING_MS_TIGHT && pixels
        > BASE_DECODE_FORCE_RESIZE_PIXELS_TIGHT;
    pixels <= BASE_DECODE_MAX_PIXELS && !forced
}

/// Whether the base decode runs on the image as it is.
pub fn base_decode_at_full_size(width: usize, height: usize, remaining_ms: Option<u128>) -> (full: bool)
    ensures
        full == spec_base_decode_at_full_size(width, height, remaining_ms),
{
    let pixels = saturating_pixels(width, height);
    let forced = match remaining_ms {
        Some(ms) => ms < BASE_DECODE_REMAINING_MS_TIGHT && pixels > BASE_DECODE_FORCE_RESIZE_PIXELS_TIGHT,
        None => false,
    };
    pixels <= BASE_DECODE_MAX_PIXELS && !forced
}

/// The rescue passes tried, in order, when the fallback found nothing.
#[derive(Clone, Copy, Debug, PartialEq, Eq, Structural)]
pub enum RescuePass {
    Grid,
    Channels,
    Upscale,
}

/// The largest image, in pixels, a rescue pass runs on.
pub open spec fn rescue_max_pixels(pass: RescuePass) -> usize {
    match pass {
        RescuePass::Grid => GRID_RESCUE_MAX_PIXELS,
        RescuePass::Channels => CHANNEL_RESCUE_MAX_PIXELS,
        RescuePass::Upscale => UPSCALE_RESCUE_MAX_PIXELS,
    }
}

/// The milliseconds a rescue pass needs left.
pub open spec fn rescue_min_ms(pass: RescuePass) -> u128 {
    match pass {
        RescuePass::Grid => RESCUE_MIN_REMAINING_MS_GRID,
        RescuePass::Channels => RESCUE_MIN_REMAINING_MS_CHANNEL,
        RescuePass::Upscale => RESCUE_MIN_REMAINING_MS_UPSCALE,
    }
}

/// Whether at least `min_ms` whole milliseconds are left; always, without a
/// deadline.
pub open spec fn spec_has_time(remaining_ms: Option<u128>, min_ms: u128) -> bool {
    match remaining_ms {
        Some(ms) => ms >= min_ms,
        None => true,
    }
}

/// Whether a rescue pass runs: nothing decoded yet, the image small enough
/// for the pass, and enough time left for it.
pub fn rescue_allowed(
    pass: RescuePass,
    decoded_nothing: bool,
    width: usize,
    height: usize,
    remaining_ms: Option<u128>,
) -> (allowed: bool)
    ensures
        allowed == (decoded_nothing && pixel_count(width, height) <= rescue_max_pixels(pass)
            && spec_has_time(remaining_ms, rescue_min_ms(pass))),
{
    let (max_pixels, min_ms) = match pass {
        RescuePass::Grid => (GRID_RESCUE_MAX_PIXELS, RESCUE_MIN_REMAINING_MS_GRID),
        RescuePass::Channels => (CHANNEL_RESCUE_MAX_PIXELS, RESCUE_MIN_REMAINING_MS_CHANNEL),
        RescuePass::Upscale => (UPSCALE_RESCUE_MAX_PIXELS, RESCUE_MIN_REMAINING_MS_UPSCALE),
    };
    let enough_time = match remaining_ms {
        Some(ms) => ms >= min_ms,
        None => true,
    };
    decoded_nothing && saturating_pixels(width, height) <= max_pixels && enough_time
}

/// The attempts and deadline left for decoding one image.
pub struct DecodeGuard {
    fallback_deadline: Option<Instant>,
    attempts_remaining: usize,
}

impl DecodeGuard {
    /// Locator runs still allowed.
    pub closed spec fn attempts(&self) -> usize {
        self.attempts_remaining
    }

    /// Whether a fallback deadline is set.
    pub closed spec fn has_deadline(&self) -> bool {
        self.fallback_deadline is Some
    }

    /// A guard allowing the full number of locator runs before `deadline`,
    /// if one is given.
    pub fn new(fallback_deadline: Option<Instant>) -> (guard: Self)
        ensures
            guard.attempts() == MAX_IDENTIFY_ATTEMPTS_PER_IMAGE,
            guard.has_deadline() == (fallback_deadline is Some),
    {
        DecodeGuard { fallback_deadline, attempts_remaining: MAX_IDENTIFY_ATTEMPTS_PER_IMAGE }
    }

    /// Whether the fallback deadline has passed; never, without one. With a
    /// deadline the clock decides, so nothing more is stated.
    pub fn deadline_reached(&self) -> (reached: bool)
        ensures
            !self.has_deadline() ==> !reached,
    {
        match &self.fallback_deadline {
            Some(deadline) => at_or_after(&now(), deadline),
            None => false,
        }
    }

    /// The whole milliseconds left before the fallback deadline, zero once
    /// it has passed; `None` without a deadline.
    pub fn remaining_ms(&self) -> (ms: Option<u128>)
        ensures
            ms is Some == self.has_deadline(),
    {
        match &self.fallback_deadline {
            Some(deadline) => {
                let current = now();
                if at_or_after(&current, deadline) {
                    Some(0)
                } else {
                    Some(whole_millis(&time_from(deadline, &current)))
                }
            },
            None => None,
        }
    }

    /// Whether at least `min_ms` milliseconds are left; always, without a
    /// deadline or when no time is asked for. Otherwise the clock decides.
    pub fn has_time(&self, min_ms: u128) -> (enough: bool)
        ensures
            !self.has_deadline() ==> enough,
            min_ms == 0 ==> enough,
    {
        match self.remaining_ms() {
            Some(ms) => ms >= min_ms,
            None => true,
        }
    }

    /// Take one locator run if the deadline has not passed and any are left.
    /// A run taken lowers the count by one; otherwise nothing changes. With
    /// no run left none is taken.
    pub fn try_consume_attempt(&mut self) -> (taken: bool)
        ensures
            final(self).has_deadline() == old(self).has_deadline(),
            taken ==> old(self).attempts() > 0 && final(self).attempts() == old(self).attempts() - 1,
            !taken ==> final(self).attempts() == old(self).attempts(),
            old(self).attempts() == 0 ==> !taken,
            !old(self).has_deadline() && old(self).attempts() > 0 ==> taken,
    {
        if self.deadline_reached() || self.attempts_remaining == 0 {
            return false;
        }
        self.attempts_remaining = self.attempts_remaining - 1;
        true
    }
}

/// The fallback policy for an image, with the time left that `guard` reads.
pub fn fallback_policy(width: usize, height: usize, guard: &DecodeGuard) -> (p: FallbackPolicy)
    ensures
        !guard.has_deadline() ==> p == spec_fallback_policy(width, height, None),
        exists|ms: Option<u128>|
            ms is Some == guard.has_deadline() && p == spec_fallback_policy(width, height, ms),
{
    let remaining = guard.remaining_ms();
    fallback_policy_for(width, height, remaining)
}

/// Decode a grayscale image if `guard` still allows a locator run; nothing
/// otherwise.
pub fn decode_with_guard(gray: &[u8], width: usize, height: usize, guard: &mut DecodeGuard) -> (decoded: Vec<DecodedSymbol>)
    requires
        gray@.len() == width * height,
        locatable_size(width, height),
    ensures
        final(guard).has_deadline() == old(guard).has_deadline(),
        final(guard).attempts() < old(guard).attempts() ==> final(guard).attempts() == old(guard).attempts() - 1
            && decoded@.map_values(|d: DecodedSymbol| decoded_view(d)) == decoded_symbols(
            quirc_identified(gray@, width, height),
        ),
        final(guard).attempts() >= old(guard).attempts() ==> final(guard).attempts() == old(guard).attempts()
            && decoded@.len() == 0,
        old(guard).attempts() == 0 ==> decoded@.len() == 0,
        !old(guard).has_deadline() && old(guard).attempts() > 0 ==> final(guard).attempts()
            == old(guard).attempts() - 1,
{
    if !guard.try_consume_attempt() {
        return Vec::new();
    }
    decode_from_grayscale(gray, width, height)
}

/// Channel `channel` of each RGB triple of `image`.
pub open spec fn channel_plane(image: Seq<u8>, channel: int) -> Seq<u8> {
    Seq::new(image.len() / 3, |i: int| image[3 * i + channel])
}

/// The symbols decoded from one colour channel of an RGB image.
pub open spec fn channel_symbols(image: Seq<u8>, width: usize, height: usize, channel: int) -> Seq<
    (Seq<char>, Seq<(i32, i32)>),
> {
    decoded_symbols(quirc_identified(channel_plane(image, channel), width, height))
}

/// Whether a decoded symbol is one of those of some colour channel.
pub open spec fn from_some_channel(image: Seq<u8>, width: usize, height: usize, symbol: DecodedSymbol) -> bool {
    exists|c: int|
        0 <= c < 3 && #[trigger] channel_symbols(image, width, height, c).contains(decoded_view(symbol))
}

/// Decode each colour channel of an RGB image in turn (red, green, blue)
/// as a grayscale image, while the guard allows, and gather what they
/// yield. Every symbol comes from one of the channels; with no deadline
/// each channel takes a locator run while any is left, so the result is the
/// symbols of the first `min(runs, 3)` channels, in channel order.
pub fn decode_from_rgb_channels(image: &[u8], width: usize, height: usize, guard: &mut DecodeGuard) -> (decoded: Vec<DecodedSymbol>)
    requires
        image@.len() == 3 * (width * height),
        locatable_size(width, height),
    ensures
        final(guard).has_deadline() == old(guard).has_deadline(),
        final(guard).attempts() <= old(guard).attempts(),
        forall|i: int|
            0 <= i < decoded@.len() ==> from_some_channel(image@, width, height, #[trigger] decoded@[i]),
        !old(guard).has_deadline() ==> {
            &&& final(guard).attempts() == old(guard).attempts() - min_int(
                old(guard).attempts() as int,
                3,
            )
            &&& decoded@.map_values(|d: DecodedSymbol| decoded_view(d)) == channel_part(
                image@,
                width,
                height,
                old(guard).attempts() as int,
                0,
            ) + channel_part(image@, width, height, old(guard).attempts() as int, 1) + channel_part(
                image@,
                width,
                height,
                old(guard).attempts() as int,
                2,
            )
        },
{
    let ghost start = guard.attempts();
    let mut decoded: Vec<DecodedSymbol> = Vec::new();
    let mut channel: usize = 0;
    while channel < 3
        invariant
            image@.len() == 3 * (width * height),
            locatable_size(width, height),
            channel <= 3,
            guard.has_deadline() == old(guard).has_deadline(),
            guard.attempts() <= old(guard).attempts(),
            start == old(guard).attempts(),
            forall|i: int|
                0 <= i < decoded@.len() ==> from_some_channel(image@, width, height, #[trigger] decoded@[i]),
            !old(guard).has_deadline() ==> {
                &&& guard.attempts() == start - min_int(start as int, channel as int)
                &&& decoded@.map_values(|d: DecodedSymbol| decoded_view(d)) == channels_decoded(
                    image@,
                    width,
                    height,
                    start as int,
                    channel as int,
                )
            },
        decreases 3 - channel,
    {
        if guard.deadline_reached() {
            return decoded;
        }
        let plane = rgb_channel_plane(image, channel);
        proof {
            assert(plane@ =~= channel_plane(image@, channel as int));
        }
        let ghost before = decoded@;
        let mut found = decode_with_guard(plane.as_slice(), width, height, guard);
        let ghost found_seq = found@;
        proof {
            let all = channel_symbols(image@, width, height, channel as int);
            let fv = found_seq.map_values(|d: DecodedSymbol| decoded_view(d));
            assert forall|k: int| 0 <= k < found_seq.len() implies all.contains(
                decoded_view(#[trigger] found_seq[k]),
            ) by {
                assert(fv[k] == decoded_view(found_seq[k]));
                assert(fv == all);
            }
        }
        decoded.append(&mut found);
        proof {
            assert(decoded@ == before + found_seq);
            assert forall|i: int| 0 <= i < decoded@.len() implies from_some_channel(
                image@,
                width,
                height,
                #[trigger] decoded@[i],
            ) by {
                if i >= before.len() {
                    assert(decoded@[i] == found_seq[i - before.len()]);
                    assert(channel_symbols(image@, width, height, channel as int).contains(
                        decoded_view(found_seq[i - before.len()]),
                    ));
                } else {
                    assert(decoded@[i] == before[i]);
                }
            }
            assert(decoded@.map_values(|d: DecodedSymbol| decoded_view(d)) =~= before.map_values(
                |d: DecodedSymbol| decoded_view(d),
            ) + found_seq.map_values(|d: DecodedSymbol| decoded_view(d)));
            if !old(guard).has_deadline() {
                assert(found_seq.map_values(|d: DecodedSymbol| decoded_view(d)) == channel_part(
                    image@,
                    width,
                    height,
                    start as int,
                    channel as int,
                ));
            }
        }
        channel += 1;
    }
    proof {
        if !old(guard).has_deadline() {
            let a = start as int;
            let e = Seq::<(Seq<char>, Seq<(i32, i32)>)>::empty();
            assert(channels_decoded(image@, width, height, a, 1) =~= e + channel_part(
                image@,
                width,
                height,
                a,
                0,
            ));
            assert(e + channel_part(image@, width, height, a, 0) =~= channel_part(
                image@,
                width,
                height,
                a,
                0,
            ));
            assert(channels_decoded(image@, width, height, a, 2) == channels_decoded(
                image@,
                width,
                height,
                a,
                1,
            ) + channel_part(image@, width, height, a, 1));
            assert(channels_decoded(image@, width, height, a, 3) == channels_decoded(
                image@,
                width,
                height,
                a,
                2,
            ) + channel_part(image@, width, height, a, 2));
        }
    }
    decoded
}

/// The symbols of channel `c`, when `attempts` locator runs leave one for it
/// (channels are decoded in order, one run each); nothing otherwise.
pub open spec fn channel_part(image: Seq<u8>, width: usize, height: usize, attempts: int, c: int) -> Seq<
    (Seq<char>, Seq<(i32, i32)>),
> {
    if attempts > c {
        channel_symbols(image, width, height, c)
    } else {
        Seq::empty()
    }
}

/// What decoding the first `n` channels in order gives with `attempts`
/// locator runs and no deadline.
pub open spec fn channels_decoded(image: Seq<u8>, width: usize, height: usize, attempts: int, n: int) -> Seq<
    (Seq<char>, Seq<(i32, i32)>),
>
    decreases n,
{
    if n <= 0 {
        Seq::empty()
    } else {
        channels_decoded(image, width, height, attempts, n - 1) + channel_part(
            image,
            width,
            height,
            attempts,
            n - 1,
        )
    }
}


/// The symbols decoded from the whole image `gray`.
pub open spec fn image_symbols(gray: Seq<u8>, width: usize, height: usize) -> Seq<(Seq<char>, Seq<(i32, i32)>)> {
    decoded_symbols(quirc_identified(gray, width, height))
}

/// Decode two full-image variants of `gray` while the guard allows: its
/// contrast stretch, then, unless the deadline has passed, its negative.
/// With no deadline each takes a locator run while any is left.
pub fn decode_full_variants(gray: &[u8], width: usize, height: usize, guard: &mut DecodeGuard) -> (decoded: Vec<DecodedSymbol>)
    requires
        gray@.len() == width * height,
        locatable_size(width, height),
    ensures
        final(guard).has_deadline() == old(guard).has_deadline(),
        final(guard).attempts() <= old(guard).attempts(),
        forall|i: int|
            0 <= i < decoded@.len() ==> #[trigger] image_symbols(
                contrast_stretched(gray@),
                width,
                height,
            ).contains(decoded_view(decoded@[i])) || image_symbols(negative(gray@), width, height).contains(
                decoded_view(decoded@[i]),
            ),
        !old(guard).has_deadline() ==> decoded@.map_values(|d: DecodedSymbol| decoded_view(d)) == (if old(
            guard,
        ).attempts() >= 1 {
            image_symbols(contrast_stretched(gray@), width, height)
        } else {
            Seq::empty()
        }) + (if old(guard).attempts() >= 2 {
            image_symbols(negative(gray@), width, height)
        } else {
            Seq::empty()
        }),
{
    let contrast = contrast_stretch_grayscale(gray);
    proof {
        lemma_contrast_stretched(gray@, contrast@);
    }
    let mut decoded = decode_with_guard(contrast.as_slice(), width, height, guard);
    let ghost first = decoded@;
    if guard.deadline_reached() {
        proof {
            assert(decoded@.map_values(|d: DecodedSymbol| decoded_view(d)) =~= decoded@.map_values(
                |d: DecodedSymbol| decoded_view(d),
            ) + Seq::empty());
            assert forall|i: int| 0 <= i < decoded@.len() implies #[trigger] image_symbols(
                contrast_stretched(gray@),
                width,
                height,
            ).contains(decoded_view(decoded@[i])) || image_symbols(negative(gray@), width, height).contains(
                decoded_view(decoded@[i]),
            ) by {
                assert(decoded@.map_values(|d: DecodedSymbol| decoded_view(d))[i] == decoded_view(
                    decoded@[i],
                ));
            }
        }
        return decoded;
    }
    let inverted = invert_grayscale(gray);
    let mut second = decode_with_guard(inverted.as_slice(), width, height, guard);
    let ghost first_view = first.map_values(|d: DecodedSymbol| decoded_view(d));
    let ghost second_view = second@.map_values(|d: DecodedSymbol| decoded_view(d));
    let ghost second_all = second@;
    decoded.append(&mut second);
    proof {
        assert(decoded@ == first + second_all);
        assert(decoded@.map_values(|d: DecodedSymbol| decoded_view(d)) =~= first_view + second_view);
    }
    proof {
        assert forall|i: int| 0 <= i < decoded@.len() implies #[trigger] image_symbols(
            contrast_stretched(gray@),
            width,
            height,
        ).contains(decoded_view(decoded@[i])) || image_symbols(negative(gray@), width, height).contains(
            decoded_view(decoded@[i]),
        ) by {
            let v = decoded@.map_values(|d: DecodedSymbol| decoded_view(d));
            assert(v[i] == decoded_view(decoded@[i]));
            if i < first.len() {
                assert(v[i] == first_view[i]);
            } else {
                assert(v[i] == second_view[i - first.len()]);
            }
        }
    }
    decoded
}

} // verus!
