//! Decoding square crops of a grayscale image around given centres: the
//! local fallbacks around finder hypotheses and proposals, and the grid
//! rescue that tries evenly spread windows when nothing else decoded.

use vstd::prelude::*;
use crate::pipeline::decode_budget::{DecodeGuard, decode_with_guard};
use crate::pipeline::grayscale_views::{
    crop_end, crop_grayscale_square, crop_origin, evenly_spaced_center, min_int, spaced_center,
};
use crate::pipeline::symbol_decode::{
    DecodedSymbol, decoded_symbols, decoded_view, locatable_size, quirc_identified,
};

verus! {

/// Crops narrower or shorter than this are not decoded.
pub const MIN_CROP_SIDE: usize = 24;

/// Grid cells along each side in the grid rescue.
pub const GRID_RESCUE_STEPS: usize = 3;

/// The grid rescue stops once it has this many symbols.
pub const GRID_RESCUE_MAX_RESULTS: usize = 32;

/// A decoded symbol as plain values: payload text and corners.
pub type SymbolView = (Seq<char>, Seq<(i32, i32)>);

/// `v` clamped to the `i32` range.
pub open spec fn clamp_i32(v: int) -> i32 {
    if v > i32::MAX {
        i32::MAX
    } else if v < i32::MIN {
        i32::MIN
    } else {
        v as i32
    }
}

/// A corner moved by `(dx, dy)`, clamped to the `i32` range.
pub open spec fn shift_corner(p: (i32, i32), dx: int, dy: int) -> (i32, i32) {
    (clamp_i32(p.0 + dx), clamp_i32(p.1 + dy))
}

/// A decoded symbol with its corners moved by `(dx, dy)`.
pub open spec fn shift_symbol(d: SymbolView, dx: int, dy: int) -> SymbolView {
    (d.0, d.1.map_values(|p: (i32, i32)| shift_corner(p, dx, dy)))
}

/// The pixels of the `cw` by `ch` window with top-left corner `(x0, y0)` of
/// a `width`-wide image, row by row.
pub open spec fn window_pixels(gray: Seq<u8>, width: int, x0: int, y0: int, cw: int, ch: int) -> Seq<
    u8,
> {
    Seq::new((cw * ch) as nat, |i: int| gray[(y0 + i / cw) * width + x0 + i % cw])
}

/// Width, height, left and top edge of the square window of side `window`
/// centred on `(cx, cy)`, clipped to the image and shifted inside it.
pub open spec fn crop_geometry(width: int, height: int, cx: int, cy: int, window: int) -> (
    int,
    int,
    int,
    int,
) {
    let cw = min_int(window, width);
    let ch = min_int(window, height);
    (cw, ch, crop_origin(cx, cw, width), crop_origin(cy, ch, height))
}

/// Whether the crop of side `window` at `(cx, cy)` is decoded: the image
/// and window are not empty, the crop lies in the buffer, and both of its
/// sides are at least `MIN_CROP_SIDE`.
pub open spec fn crop_usable(gray: Seq<u8>, width: int, height: int, cx: int, cy: int, window: int) -> bool {
    let (cw, ch, x0, y0) = crop_geometry(width, height, cx, cy, window);
    &&& width > 0 && height > 0 && window > 0
    &&& crop_end(width, x0, y0, cw, ch) <= gray.len()
    &&& cw >= MIN_CROP_SIDE && ch >= MIN_CROP_SIDE
}

/// The symbols the crop of side `window` at `(cx, cy)` decodes to, with
/// their corners moved back to image coordinates.
pub open spec fn crop_symbols(gray: Seq<u8>, width: usize, height: usize, crop: (usize, usize, usize)) -> Seq<
    SymbolView,
> {
    let (cw, ch, x0, y0) = crop_geometry(
        width as int,
        height as int,
        crop.0 as int,
        crop.1 as int,
        crop.2 as int,
    );
    decoded_symbols(
        quirc_identified(window_pixels(gray, width as int, x0, y0, cw, ch), cw as usize, ch as usize),
    ).map_values(|d: SymbolView| shift_symbol(d, x0, y0))
}

/// The crops to decode, as `(cx, cy, window)`: centre by centre, each at
/// every window size in turn.
pub open spec fn crop_plan(centres: Seq<(usize, usize)>, windows: Seq<usize>) -> Seq<
    (usize, usize, usize),
> {
    Seq::new(
        centres.len() * windows.len(),
        |i: int|
            (
                centres[i / (windows.len() as int)].0,
                centres[i / (windows.len() as int)].1,
                windows[i % (windows.len() as int)],
            ),
    )
}

/// What decoding the crops of `plan` in order adds to `found` with
/// `attempts` locator runs left and no deadline: an unusable crop is
/// skipped; a usable one takes a run if any is left (adding its symbols)
/// and ends the work once `max_results` symbols are found.
pub open spec fn crop_run(
    gray: Seq<u8>,
    width: usize,
    height: usize,
    plan: Seq<(usize, usize, usize)>,
    attempts: nat,
    max_results: nat,
    found: Seq<SymbolView>,
) -> Seq<SymbolView>
    decreases plan.len(),
{
    if plan.len() == 0 {
        found
    } else {
        let c = plan[0];
        let rest = plan.drop_first();
        if !crop_usable(gray, width as int, height as int, c.0 as int, c.1 as int, c.2 as int) {
            crop_run(gray, width, height, rest, attempts, max_results, found)
        } else {
            let found2 = if attempts > 0 {
                found + crop_symbols(gray, width, height, c)
            } else {
                found
            };
            let left: nat = if attempts > 0 {
                (attempts - 1) as nat
            } else {
                0
            };
            if found2.len() >= max_results {
                found2
            } else {
                crop_run(gray, width, height, rest, left, max_results, found2)
            }
        }
    }
}

fn clamp_add(v: i32, d: usize) -> (r: i32)
    requires
        d <= i32::MAX,
    ensures
        r == clamp_i32(v + d),
{
    let s: i64 = v as i64 + d as i64;
    if s > i32::MAX as i64 {
        i32::MAX
    } else {
        s as i32
    }
}

/// `d` with its corners moved by `(dx, dy)`, clamped to the `i32` range.
fn shift_decoded(d: &DecodedSymbol, dx: usize, dy: usize) -> (s: DecodedSymbol)
    requires
        dx <= i32::MAX,
        dy <= i32::MAX,
    ensures
        decoded_view(s) == shift_symbol(decoded_view(*d), dx as int, dy as int),
{
    let c = d.corners;
    let corners = [
        (clamp_add(c[0].0, dx), clamp_add(c[0].1, dy)),
        (clamp_add(c[1].0, dx), clamp_add(c[1].1, dy)),
        (clamp_add(c[2].0, dx), clamp_add(c[2].1, dy)),
        (clamp_add(c[3].0, dx), clamp_add(c[3].1, dy)),
    ];
    proof {
        assert(corners@ =~= c@.map_values(|p: (i32, i32)| shift_corner(p, dx as int, dy as int)));
    }
    DecodedSymbol { payload: d.payload.clone(), corners }
}


proof fn lemma_plan_index(idx: int, n_centres: int, n_windows: int)
    requires
        0 <= idx < n_centres * n_windows,
        n_windows >= 0,
    ensures
        n_windows > 0,
        0 <= idx / n_windows < n_centres,
        0 <= idx % n_windows < n_windows,
{
    if n_windows <= 0 {
        assert(n_centres * n_windows <= 0) by (nonlinear_arith)
            requires
                n_windows <= 0,
                n_windows >= 0,
        ;
    } else {
        let q = idx / n_windows;
        let r = idx % n_windows;
        vstd::arithmetic::div_mod::lemma_fundamental_div_mod(idx, n_windows);
        assert(0 <= q < n_centres) by (nonlinear_arith)
            requires
                idx == n_windows * q + r,
                0 <= r < n_windows,
                0 <= idx < n_centres * n_windows,
        ;
    }
}

proof fn lemma_crop_pixels(crop: Seq<u8>, gray: Seq<u8>, width: int, x0: int, y0: int, cw: int, ch: int)
    requires
        cw > 0,
        ch >= 0,
        crop.len() == cw * ch,
        forall|c: int, row: int|
            0 <= c < cw && 0 <= row < ch ==> #[trigger] crop[row * cw + c] == gray[(y0 + row)
                * width + x0 + c],
    ensures
        crop == window_pixels(gray, width, x0, y0, cw, ch),
{
    assert forall|i: int| 0 <= i < crop.len() implies crop[i] == window_pixels(
        gray,
        width,
        x0,
        y0,
        cw,
        ch,
    )[i] by {
        vstd::arithmetic::div_mod::lemma_fundamental_div_mod(i, cw);
        let row = i / cw;
        let c = i % cw;
        assert(0 <= row < ch) by (nonlinear_arith)
            requires
                i == cw * row + c,
                0 <= c < cw,
                0 <= i < cw * ch,
        ;
        assert(i == row * cw + c) by (nonlinear_arith)
            requires
                i == cw * row + c,
        ;
    }
    assert(crop =~= window_pixels(gray, width, x0, y0, cw, ch));
}

/// Decode the square crops of sides `windows` centred on each of `centres`
/// in turn, while `guard` allows: a crop narrower or shorter than
/// `MIN_CROP_SIDE` is skipped, the corners found are moved back to image
/// coordinates, and the work ends once `max_results` symbols were found or
/// the deadline has passed. Without a deadline the result is exactly that
/// of `crop_run`; with one, every symbol still comes from one of the crops.
pub fn decode_from_crops(
    gray: &[u8],
    width: usize,
    height: usize,
    centres: &[(usize, usize)],
    windows: &[usize],
    max_results: usize,
    guard: &mut DecodeGuard,
) -> (decoded: Vec<DecodedSymbol>)
    requires
        gray@.len() == width * height,
        locatable_size(width, height),
        centres@.len() * windows@.len() <= usize::MAX,
    ensures
        final(guard).has_deadline() == old(guard).has_deadline(),
        final(guard).attempts() <= old(guard).attempts(),
        !old(guard).has_deadline() ==> decoded@.map_values(|d: DecodedSymbol| decoded_view(d))
            == crop_run(
            gray@,
            width,
            height,
            crop_plan(centres@, windows@),
            old(guard).attempts() as nat,
            max_results as nat,
            Seq::empty(),
        ),
        forall|i: int|
            0 <= i < decoded@.len() ==> exists|p: int|
                0 <= p < crop_plan(centres@, windows@).len() && crop_symbols(
                    gray@,
                    width,
                    height,
                    #[trigger] crop_plan(centres@, windows@)[p],
                ).contains(decoded_view(#[trigger] decoded@[i])),
{
    let n = centres.len() * windows.len();
    let wl = windows.len();
    let ghost plan = crop_plan(centres@, windows@);
    let ghost had = guard.has_deadline();
    let ghost a0 = guard.attempts();
    let ghost target = crop_run(gray@, width, height, plan, a0 as nat, max_results as nat, Seq::empty());
    let ghost mut origin: Seq<int> = Seq::empty();
    let mut decoded: Vec<DecodedSymbol> = Vec::new();
    proof {
        assert(plan.skip(0) =~= plan);
        assert(decoded@.map_values(|d: DecodedSymbol| decoded_view(d)) =~= Seq::<SymbolView>::empty());
    }
    let mut idx: usize = 0;
    while idx < n
        invariant
            gray@.len() == width * height,
            locatable_size(width, height),
            n == centres@.len() * windows@.len(),
            wl == windows@.len(),
            plan == crop_plan(centres@, windows@),
            plan.len() == n,
            idx <= n,
            guard.has_deadline() == had,
            guard.attempts() <= a0,
            had == old(guard).has_deadline(),
            a0 == old(guard).attempts(),
            target == crop_run(gray@, width, height, plan, a0 as nat, max_results as nat, Seq::empty()),
            !had ==> crop_run(
                gray@,
                width,
                height,
                plan.skip(idx as int),
                guard.attempts() as nat,
                max_results as nat,
                decoded@.map_values(|d: DecodedSymbol| decoded_view(d)),
            ) == target,
            origin.len() == decoded@.len(),
            forall|i: int|
                0 <= i < decoded@.len() ==> 0 <= #[trigger] origin[i] < idx && crop_symbols(
                    gray@,
                    width,
                    height,
                    plan[origin[i]],
                ).contains(decoded_view(decoded@[i])),
        decreases n - idx,
    {
        if guard.deadline_reached() {
            proof {
                assert forall|i: int| 0 <= i < decoded@.len() implies exists|p: int|
                    0 <= p < plan.len() && crop_symbols(gray@, width, height, #[trigger] plan[p]).contains(
                        decoded_view(#[trigger] decoded@[i]),
                    ) by {
                    assert(crop_symbols(gray@, width, height, plan[origin[i]]).contains(
                        decoded_view(decoded@[i]),
                    ));
                }
            }
            return decoded;
        }
        proof {
            lemma_plan_index(idx as int, centres@.len() as int, wl as int);
        }
        let k = idx / wl;
        let j = idx % wl;
        let (cx, cy) = centres[k];
        let win = windows[j];
        let ghost c = plan[idx as int];
        let ghost view_before = decoded@.map_values(|d: DecodedSymbol| decoded_view(d));
        proof {
            assert(c == (cx, cy, win));
            assert(plan.skip(idx as int)[0] == c);
            assert(plan.skip(idx as int).drop_first() =~= plan.skip(idx + 1));
        }
        match crop_grayscale_square(gray, width, height, cx, cy, win) {
            None => {},
            Some((crop, cw, ch, ox, oy)) => {
                if cw >= MIN_CROP_SIDE && ch >= MIN_CROP_SIDE {
                    proof {
                        lemma_crop_pixels(
                            crop@,
                            gray@,
                            width as int,
                            ox as int,
                            oy as int,
                            cw as int,
                            ch as int,
                        );
                        assert(cw * ch <= width * height) by (nonlinear_arith)
                            requires
                                cw <= width,
                                ch <= height,
                        ;
                    }
                    let ghost attempts_before = guard.attempts();
                    let found = decode_with_guard(crop.as_slice(), cw, ch, guard);
                    let ghost attempts_after = guard.attempts();
                    let ghost added = found@.map_values(|d: DecodedSymbol| decoded_view(d));
                    let ghost shifted = added.map_values(|d: SymbolView| shift_symbol(d, ox as int, oy as int));
                    proof {
                        assert(found@.len() > 0 ==> shifted =~= crop_symbols(gray@, width, height, c));
                    }
                    let mut t: usize = 0;
                    while t < found.len()
                        invariant
                            t <= found@.len(),
                            guard.has_deadline() == had,
                            guard.attempts() == attempts_after,
                            attempts_after <= a0,
                            had == old(guard).has_deadline(),
                            a0 == old(guard).attempts(),
                            target == crop_run(
                                gray@,
                                width,
                                height,
                                plan,
                                a0 as nat,
                                max_results as nat,
                                Seq::empty(),
                            ),
                            ox <= width,
                            oy <= height,
                            locatable_size(width, height),
                            added == found@.map_values(|d: DecodedSymbol| decoded_view(d)),
                            shifted == added.map_values(|d: SymbolView| shift_symbol(d, ox as int, oy as int)),
                            decoded@.map_values(|d: DecodedSymbol| decoded_view(d)) =~= view_before
                                + shifted.take(t as int),
                            origin.len() == decoded@.len(),
                            forall|i: int|
                                0 <= i < view_before.len() ==> 0 <= #[trigger] origin[i] < idx
                                    && crop_symbols(gray@, width, height, plan[origin[i]]).contains(
                                    decoded_view(decoded@[i]),
                                ),
                            forall|i: int|
                                view_before.len() <= i < decoded@.len() ==> #[trigger] origin[i] == idx,
                            view_before.len() <= decoded@.len(),
                        decreases found@.len() - t,
                    {
                        let s = shift_decoded(&found[t], ox, oy);
                        let ghost before_push = decoded@;
                        decoded.push(s);
                        proof {
                            assert(added[t as int] == decoded_view(found@[t as int]));
                            assert(shifted[t as int] == shift_symbol(added[t as int], ox as int, oy as int));
                            assert(decoded@ == before_push.push(s));
                            assert(decoded@.map_values(|d: DecodedSymbol| decoded_view(d))
                                =~= before_push.map_values(|d: DecodedSymbol| decoded_view(d)).push(
                                decoded_view(s),
                            ));
                            origin = origin.push(idx as int);
                            assert(decoded@.map_values(|d: DecodedSymbol| decoded_view(d)) =~= view_before
                                + shifted.take(t + 1));
                        }
                        t += 1;
                    }
                    proof {
                        assert(shifted.take(found@.len() as int) =~= shifted);
                        assert forall|i: int|
                            0 <= i < decoded@.len() implies 0 <= #[trigger] origin[i] < idx + 1
                            && crop_symbols(gray@, width, height, plan[origin[i]]).contains(
                            decoded_view(decoded@[i]),
                        ) by {
                            if i >= view_before.len() {
                                let m = i - view_before.len();
                                assert(decoded@.map_values(|d: DecodedSymbol| decoded_view(d))[i]
                                    == shifted[m]);
                                assert(crop_symbols(gray@, width, height, c)[m] == shifted[m]);
                            }
                        }
                        if !had {
                            assert(crop_usable(
                                gray@,
                                width as int,
                                height as int,
                                cx as int,
                                cy as int,
                                win as int,
                            ));
                            if attempts_before > 0 {
                                assert(shifted =~= crop_symbols(gray@, width, height, c));
                                assert(decoded@.map_values(|d: DecodedSymbol| decoded_view(d))
                                    =~= view_before + crop_symbols(gray@, width, height, c));
                            } else {
                                assert(decoded@.map_values(|d: DecodedSymbol| decoded_view(d))
                                    =~= view_before);
                            }
                        }
                    }
                    if decoded.len() >= max_results {
                        proof {
                            if !had {
                                let v = decoded@.map_values(|d: DecodedSymbol| decoded_view(d));
                                assert(v.len() == decoded@.len());
                                assert(plan.skip(idx as int).len() > 0);
                                assert(crop_run(
                                    gray@,
                                    width,
                                    height,
                                    plan.skip(idx as int),
                                    attempts_before as nat,
                                    max_results as nat,
                                    view_before,
                                ) == v);
                            }
                            assert forall|i: int| 0 <= i < decoded@.len() implies exists|p: int|
                                0 <= p < plan.len() && crop_symbols(
                                    gray@,
                                    width,
                                    height,
                                    #[trigger] plan[p],
                                ).contains(decoded_view(#[trigger] decoded@[i])) by {
                                assert(crop_symbols(gray@, width, height, plan[origin[i]]).contains(
                                    decoded_view(decoded@[i]),
                                ));
                            }
                        }
                        return decoded;
                    }
                }
            },
        }
        idx += 1;
    }
    proof {
        assert forall|i: int| 0 <= i < decoded@.len() implies exists|p: int|
            0 <= p < plan.len() && crop_symbols(gray@, width, height, #[trigger] plan[p]).contains(
                decoded_view(#[trigger] decoded@[i]),
            ) by {
            assert(crop_symbols(gray@, width, height, plan[origin[i]]).contains(
                decoded_view(decoded@[i]),
            ));
        }
    }
    decoded
}


/// The centres of the grid rescue: the middles of the cells of a
/// `GRID_RESCUE_STEPS` by `GRID_RESCUE_STEPS` grid, row by row.
pub open spec fn grid_centres(width: usize, height: usize) -> Seq<(usize, usize)> {
    Seq::new(
        9,
        |i: int|
            (
                spaced_center(width as int, i % 3, 3) as usize,
                spaced_center(height as int, i / 3, 3) as usize,
            ),
    )
}

/// The window sides of the grid rescue, smaller first.
pub open spec fn grid_windows() -> Seq<usize> {
    seq![512usize, 768usize]
}

/// The grid rescue: decode windows of 512 and 768 pixels centred on the
/// cells of a three by three grid, row by row, until
/// `GRID_RESCUE_MAX_RESULTS` symbols are found; nothing for an empty image.
pub fn decode_from_grid_crops(gray: &[u8], width: usize, height: usize, guard: &mut DecodeGuard) -> (decoded:
    Vec<DecodedSymbol>)
    requires
        gray@.len() == width * height,
        locatable_size(width, height),
    ensures
        final(guard).has_deadline() == old(guard).has_deadline(),
        final(guard).attempts() <= old(guard).attempts(),
        width == 0 || height == 0 ==> decoded@.len() == 0,
        !old(guard).has_deadline() ==> decoded@.map_values(|d: DecodedSymbol| decoded_view(d))
            == crop_run(
            gray@,
            width,
            height,
            crop_plan(grid_centres(width, height), grid_windows()),
            old(guard).attempts() as nat,
            GRID_RESCUE_MAX_RESULTS as nat,
            Seq::empty(),
        ),
        forall|i: int|
            0 <= i < decoded@.len() ==> exists|p: int|
                0 <= p < crop_plan(grid_centres(width, height), grid_windows()).len()
                    && crop_symbols(
                    gray@,
                    width,
                    height,
                    #[trigger] crop_plan(grid_centres(width, height), grid_windows())[p],
                ).contains(decoded_view(#[trigger] decoded@[i])),
{
    if width == 0 || height == 0 {
        proof {
            let plan = crop_plan(grid_centres(width, height), grid_windows());
            lemma_run_of_unusable(gray@, width, height, plan, 0, old(guard).attempts() as nat);
            assert(plan.skip(0) =~= plan);
        }
        return Vec::new();
    }
    let mut centres: Vec<(usize, usize)> = Vec::new();
    let mut i: usize = 0;
    while i < 9
        invariant
            i <= 9,
            centres@ =~= grid_centres(width, height).take(i as int),
        decreases 9 - i,
    {
        let cx = evenly_spaced_center(width, i % GRID_RESCUE_STEPS, GRID_RESCUE_STEPS);
        let cy = evenly_spaced_center(height, i / GRID_RESCUE_STEPS, GRID_RESCUE_STEPS);
        centres.push((cx, cy));
        i += 1;
    }
    let mut windows: Vec<usize> = Vec::new();
    windows.push(512);
    windows.push(768);
    proof {
        assert(centres@ =~= grid_centres(width, height));
        assert(windows@ =~= grid_windows());
    }
    decode_from_crops(gray, width, height, centres.as_slice(), windows.as_slice(), GRID_RESCUE_MAX_RESULTS, guard)
}

proof fn lemma_run_of_unusable(
    gray: Seq<u8>,
    width: usize,
    height: usize,
    plan: Seq<(usize, usize, usize)>,
    k: int,
    attempts: nat,
)
    requires
        width == 0 || height == 0,
        0 <= k <= plan.len(),
    ensures
        crop_run(gray, width, height, plan.skip(k), attempts, GRID_RESCUE_MAX_RESULTS as nat, Seq::empty())
            == Seq::<SymbolView>::empty(),
    decreases plan.len() - k,
{
    if k < plan.len() {
        assert(plan.skip(k).drop_first() =~= plan.skip(k + 1));
        lemma_run_of_unusable(gray, width, height, plan, k + 1, attempts);
    }
}

} // verus!
