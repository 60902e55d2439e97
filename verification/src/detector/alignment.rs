//! Alignment-pattern centres of a QR symbol.

use vstd::prelude::*;

verus! {

/// How many centre coordinates each axis carries for a version with
/// alignment patterns.
pub open spec fn center_count(version: int) -> int {
    version / 7 + 2
}

/// Distance between consecutive centre coordinates after the first.
pub open spec fn center_step(version: int) -> int {
    if version == 32 {
        26
    } else {
        let n = center_count(version);
        ((4 * version + 4 + 2 * n - 3) / (2 * n - 2)) * 2
    }
}

/// The alignment-pattern centre coordinates of `version`, shared by rows and
/// columns: `6` first, then evenly spaced up to `size - 7`. Versions outside
/// `2..=40` have none.
pub open spec fn alignment_centers(version: int) -> Seq<int> {
    if 2 <= version <= 40 {
        let n = center_count(version);
        Seq::new(
            n as nat,
            |k: int|
                if k == 0 {
                    6
                } else {
                    4 * version + 10 - (n - 1 - k) * center_step(version)
                },
        )
    } else {
        Seq::empty()
    }
}

/// Whether `(row, col)` lies on one of the three finder-pattern corners of a
/// symbol with `size` modules per side.
pub open spec fn in_finder_corner(row: int, col: int, size: int) -> bool {
    ||| (row <= 8 && col <= 8)
    ||| (row >= size - 9 && col <= 8)
    ||| (row <= 8 && col >= size - 9)
}

/// The kept positions of one row, over the first `j` column centres.
pub open spec fn row_positions(c: Seq<int>, row: int, size: int, j: int) -> Seq<(usize, usize)>
    decreases j,
{
    if j <= 0 {
        Seq::empty()
    } else {
        let prev = row_positions(c, row, size, j - 1);
        if in_finder_corner(row, c[j - 1], size) {
            prev
        } else {
            prev.push((row as usize, c[j - 1] as usize))
        }
    }
}

/// The kept positions of the first `i` rows, row-major.
pub open spec fn grid_positions(c: Seq<int>, size: int, i: int) -> Seq<(usize, usize)>
    decreases i,
{
    if i <= 0 {
        Seq::empty()
    } else {
        grid_positions(c, size, i - 1) + row_positions(c, c[i - 1], size, c.len() as int)
    }
}

/// Every alignment-pattern position of `version`, row-major, leaving out the
/// three that would overlap a finder pattern.
pub open spec fn alignment_positions(version: int) -> Seq<(usize, usize)> {
    let c = alignment_centers(version);
    grid_positions(c, 17 + 4 * version, c.len() as int)
}

proof fn lemma_center_bounds(v: int, k: int)
    requires
        2 <= v <= 40,
        1 <= k < center_count(v),
    ensures
        0 <= (center_count(v) - 1 - k) * center_step(v) <= 4 * v + 3,
{
    let n = center_count(v);
    let s = center_step(v);
    let t = n - 1 - k;
    assert(0 <= (n - 2) * s <= 4 * v + 3) by {
        if v == 32 {
            assert(n == 6 && s == 26);
            assert((n - 2) * s == 4 * s) by (nonlinear_arith) requires n == 6;
        } else if n == 2 {
            assert((n - 2) * s == 0) by (nonlinear_arith) requires n == 2;
        } else if n == 3 {
            assert(s == ((4 * v + 7) / 4) * 2);
            assert((n - 2) * s == s) by (nonlinear_arith) requires n == 3;
        } else if n == 4 {
            assert(s == ((4 * v + 9) / 6) * 2);
            assert((n - 2) * s == 2 * s) by (nonlinear_arith) requires n == 4;
        } else if n == 5 {
            assert(s == ((4 * v + 11) / 8) * 2);
            assert((n - 2) * s == 3 * s) by (nonlinear_arith) requires n == 5;
        } else if n == 6 {
            assert(s == ((4 * v + 13) / 10) * 2);
            assert((n - 2) * s == 4 * s) by (nonlinear_arith) requires n == 6;
        } else {
            assert(n == 7);
            assert(s == ((4 * v + 15) / 12) * 2);
            assert((n - 2) * s == 5 * s) by (nonlinear_arith) requires n == 7;
        }
    }
    assert(0 <= t * s <= (n - 2) * s) by (nonlinear_arith)
        requires
            0 <= t <= n - 2,
            0 <= (n - 2) * s,
            0 <= s,
    ;
}

fn alignment_centers_of(version: u8) -> (c: Vec<usize>)
    ensures
        c@.len() == alignment_centers(version as int).len(),
        forall|k: int| 0 <= k < c@.len() ==> c@[k] as int == alignment_centers(version as int)[k],
{
    let mut c: Vec<usize> = Vec::new();
    if version < 2 || version > 40 {
        return c;
    }
    let v = version as usize;
    let n: usize = v / 7 + 2;
    let last: usize = 4 * v + 10;
    let step: usize = if v == 32 {
        26
    } else {
        ((4 * v + 4 + 2 * n - 3) / (2 * n - 2)) * 2
    };
    assert(step == center_step(v as int));
    c.push(6);
    let mut k: usize = 1;
    while k < n
        invariant
            2 <= v <= 40,
            v == version,
            n == center_count(v as int),
            last == 4 * v + 10,
            step == center_step(v as int),
            1 <= k <= n,
            c@.len() == k,
            forall|i: int| 0 <= i < k ==> c@[i] as int == alignment_centers(v as int)[i],
        decreases n - k,
    {
        proof {
            lemma_center_bounds(v as int, k as int);
        }
        let offset: usize = (n - 1 - k) * step;
        c.push(last - offset);
        k += 1;
    }
    c
}

/// Alignment-pattern centres of `version` as `(row, col)` pairs, row-major,
/// without the three corners that would overlap a finder pattern. Versions
/// outside `2..=40` have none.
pub fn get_alignment_positions(version: u8) -> (positions: Vec<(usize, usize)>)
    ensures
        positions@ == alignment_positions(version as int),
{
    let centers = alignment_centers_of(version);
    let ghost c = alignment_centers(version as int);
    if centers.len() == 0 {
        assert(alignment_positions(version as int) =~= Seq::empty());
        return Vec::new();
    }
    assert(2 <= version <= 40);
    let size: usize = 17 + 4 * version as usize;
    let n = centers.len();
    let mut positions: Vec<(usize, usize)> = Vec::new();
    let mut i: usize = 0;
    while i < n
        invariant
            n == centers@.len() == c.len(),
            forall|k: int| 0 <= k < n ==> centers@[k] as int == c[k],
            c == alignment_centers(version as int),
            size == 17 + 4 * version,
            2 <= version <= 40,
            0 <= i <= n,
            positions@ == grid_positions(c, size as int, i as int),
        decreases n - i,
    {
        let row = centers[i];
        let ghost before = positions@;
        let mut j: usize = 0;
        while j < n
            invariant
                n == centers@.len() == c.len(),
                forall|k: int| 0 <= k < n ==> centers@[k] as int == c[k],
                size == 17 + 4 * version,
                2 <= version <= 40,
                0 <= i < n,
                row as int == c[i as int],
                0 <= j <= n,
                positions@ == before + row_positions(c, row as int, size as int, j as int),
            decreases n - j,
        {
            let col = centers[j];
            let in_tl = row <= 8 && col <= 8;
            let in_tr = row >= size - 9 && col <= 8;
            let in_bl = row <= 8 && col >= size - 9;
            if !(in_tl || in_tr || in_bl) {
                positions.push((row, col));
            }
            proof {
                let prev = row_positions(c, row as int, size as int, j as int);
                if in_tl || in_tr || in_bl {
                    assert(positions@ == before + row_positions(
                        c,
                        row as int,
                        size as int,
                        j + 1,
                    ));
                } else {
                    assert(before + prev.push((row, col)) =~= (before + prev).push((row, col)));
                }
            }
            j += 1;
        }
        i += 1;
    }
    positions
}

proof fn lemma_row_positions_contains(c: Seq<int>, row: int, size: int, j: int, p: (usize, usize))
    requires
        0 <= j <= c.len(),
        0 <= row <= usize::MAX,
        forall|k: int| 0 <= k < c.len() ==> 0 <= #[trigger] c[k] <= usize::MAX,
    ensures
        row_positions(c, row, size, j).contains(p) <==> (p.0 as int == row && exists|k: int|
            0 <= k < j && #[trigger] c[k] == p.1 as int && !in_finder_corner(row, c[k], size)),
    decreases j,
{
    if j > 0 {
        lemma_row_positions_contains(c, row, size, j - 1, p);
        let prev = row_positions(c, row, size, j - 1);
        if !in_finder_corner(row, c[j - 1], size) {
            let q = (row as usize, c[j - 1] as usize);
            if p == q {
                assert(prev.push(q)[prev.len() as int] == q);
            }
            assert(prev.push(q).contains(p) <==> (prev.contains(p) || p == q)) by {
                if prev.push(q).contains(p) {
                    let idx = choose|idx: int| 0 <= idx < prev.push(q).len() && prev.push(q)[idx] == p;
                    if idx < prev.len() {
                        assert(prev[idx] == p);
                    }
                }
                if prev.contains(p) {
                    let idx = choose|idx: int| 0 <= idx < prev.len() && prev[idx] == p;
                    assert(prev.push(q)[idx] == p);
                }
            }
        }
    }
}

proof fn lemma_grid_positions_contains(c: Seq<int>, size: int, i: int, p: (usize, usize))
    requires
        0 <= i <= c.len(),
        forall|k: int| 0 <= k < c.len() ==> 0 <= #[trigger] c[k] <= usize::MAX,
    ensures
        grid_positions(c, size, i).contains(p) <==> exists|r: int, k: int|
            0 <= r < i && 0 <= k < c.len() && #[trigger] c[r] == p.0 as int && #[trigger] c[k]
                == p.1 as int && !in_finder_corner(c[r], c[k], size),
    decreases i,
{
    if i > 0 {
        lemma_grid_positions_contains(c, size, i - 1, p);
        lemma_row_positions_contains(c, c[i - 1], size, c.len() as int, p);
        let a = grid_positions(c, size, i - 1);
        let b = row_positions(c, c[i - 1], size, c.len() as int);
        assert((a + b).contains(p) <==> (a.contains(p) || b.contains(p))) by {
            if (a + b).contains(p) {
                let idx = choose|idx: int| 0 <= idx < (a + b).len() && (a + b)[idx] == p;
                if idx < a.len() {
                    assert(a[idx] == p);
                } else {
                    assert(b[idx - a.len()] == p);
                }
            }
            if a.contains(p) {
                let idx = choose|idx: int| 0 <= idx < a.len() && a[idx] == p;
                assert((a + b)[idx] == p);
            }
            if b.contains(p) {
                let idx = choose|idx: int| 0 <= idx < b.len() && b[idx] == p;
                assert((a + b)[a.len() + idx] == p);
            }
        }
        if b.contains(p) {
            let k = choose|k: int|
                0 <= k < c.len() && #[trigger] c[k] == p.1 as int && !in_finder_corner(
                    c[i - 1],
                    c[k],
                    size,
                );
            assert(c[i - 1] == p.0 as int && c[k] == p.1 as int);
        }
        if exists|r: int, k: int|
            0 <= r < i && 0 <= k < c.len() && #[trigger] c[r] == p.0 as int && #[trigger] c[k]
                == p.1 as int && !in_finder_corner(c[r], c[k], size) {
            let (r, k) = choose|r: int, k: int|
                0 <= r < i && 0 <= k < c.len() && #[trigger] c[r] == p.0 as int && #[trigger] c[k]
                    == p.1 as int && !in_finder_corner(c[r], c[k], size);
            if r == i - 1 {
                assert(p.0 as int == c[i - 1]);
                assert(b.contains(p));
            }
        }
    }
}

/// A pair is an alignment position of `version` exactly when both of its
/// coordinates are centre coordinates of that version and it does not lie on
/// a finder-pattern corner.
pub proof fn lemma_alignment_position_membership(version: int, p: (usize, usize))
    ensures
        alignment_positions(version).contains(p) <==> (alignment_centers(version).contains(
            p.0 as int,
        ) && alignment_centers(version).contains(p.1 as int) && !in_finder_corner(
            p.0 as int,
            p.1 as int,
            17 + 4 * version,
        )),
{
    let c = alignment_centers(version);
    if 2 <= version <= 40 {
        assert forall|k: int| 0 <= k < c.len() implies 0 <= #[trigger] c[k] <= usize::MAX by {
            if k > 0 {
                lemma_center_bounds(version, k);
            }
        }
    }
    lemma_grid_positions_contains(c, 17 + 4 * version, c.len() as int, p);
    if c.contains(p.0 as int) && c.contains(p.1 as int) && !in_finder_corner(
        p.0 as int,
        p.1 as int,
        17 + 4 * version,
    ) {
        let r = choose|r: int| 0 <= r < c.len() && c[r] == p.0 as int;
        let k = choose|k: int| 0 <= k < c.len() && c[k] == p.1 as int;
        assert(c[r] == p.0 as int && c[k] == p.1 as int);
    }
}


/// The alignment-pattern centre coordinates of ISO/IEC 18004 Annex E
/// (Table E.1), version by version; none outside versions 2 to 40.
pub open spec fn annex_e_centers(version: int) -> Seq<int> {
    if version == 2 {
        seq![6int, 18]
    } else if version == 3 {
        seq![6int, 22]
    } else if version == 4 {
        seq![6int, 26]
    } else if version == 5 {
        seq![6int, 30]
    } else if version == 6 {
        seq![6int, 34]
    } else if version == 7 {
        seq![6int, 22, 38]
    } else if version == 8 {
        seq![6int, 24, 42]
    } else if version == 9 {
        seq![6int, 26, 46]
    } else if version == 10 {
        seq![6int, 28, 50]
    } else if version == 11 {
        seq![6int, 30, 54]
    } else if version == 12 {
        seq![6int, 32, 58]
    } else if version == 13 {
        seq![6int, 34, 62]
    } else if version == 14 {
        seq![6int, 26, 46, 66]
    } else if version == 15 {
        seq![6int, 26, 48, 70]
    } else if version == 16 {
        seq![6int, 26, 50, 74]
    } else if version == 17 {
        seq![6int, 30, 54, 78]
    } else if version == 18 {
        seq![6int, 30, 56, 82]
    } else if version == 19 {
        seq![6int, 30, 58, 86]
    } else if version == 20 {
        seq![6int, 34, 62, 90]
    } else if version == 21 {
        seq![6int, 28, 50, 72, 94]
    } else if version == 22 {
        seq![6int, 26, 50, 74, 98]
    } else if version == 23 {
        seq![6int, 30, 54, 78, 102]
    } else if version == 24 {
        seq![6int, 28, 54, 80, 106]
    } else if version == 25 {
        seq![6int, 32, 58, 84, 110]
    } else if version == 26 {
        seq![6int, 30, 58, 86, 114]
    } else if version == 27 {
        seq![6int, 34, 62, 90, 118]
    } else if version == 28 {
        seq![6int, 26, 50, 74, 98, 122]
    } else if version == 29 {
        seq![6int, 30, 54, 78, 102, 126]
    } else if version == 30 {
        seq![6int, 26, 52, 78, 104, 130]
    } else if version == 31 {
        seq![6int, 30, 56, 82, 108, 134]
    } else if version == 32 {
        seq![6int, 34, 60, 86, 112, 138]
    } else if version == 33 {
        seq![6int, 30, 58, 86, 114, 142]
    } else if version == 34 {
        seq![6int, 34, 62, 90, 118, 146]
    } else if version == 35 {
        seq![6int, 30, 54, 78, 102, 126, 150]
    } else if version == 36 {
        seq![6int, 24, 50, 76, 102, 128, 154]
    } else if version == 37 {
        seq![6int, 28, 54, 80, 106, 132, 158]
    } else if version == 38 {
        seq![6int, 32, 58, 84, 110, 136, 162]
    } else if version == 39 {
        seq![6int, 26, 54, 82, 110, 138, 166]
    } else if version == 40 {
        seq![6int, 30, 58, 86, 114, 142, 170]
    } else {
        Seq::empty()
    }
}

/// The centre coordinates of every version are those of the Annex E table.
pub proof fn lemma_alignment_centers_table(version: int)
    ensures
        alignment_centers(version) == annex_e_centers(version),
{
    if version == 2 {
        assert(center_count(2) == 2);
        assert(13int / 2int == 6int);
        assert(center_step(2) == 12);
        assert(alignment_centers(2) =~= annex_e_centers(2));
    } else if version == 3 {
        assert(center_count(3) == 2);
        assert(17int / 2int == 8int);
        assert(center_step(3) == 16);
        assert(alignment_centers(3) =~= annex_e_centers(3));
    } else if version == 4 {
        assert(center_count(4) == 2);
        assert(21int / 2int == 10int);
        assert(center_step(4) == 20);
        assert(alignment_centers(4) =~= annex_e_centers(4));
    } else if version == 5 {
        assert(center_count(5) == 2);
        assert(25int / 2int == 12int);
        assert(center_step(5) == 24);
        assert(alignment_centers(5) =~= annex_e_centers(5));
    } else if version == 6 {
        assert(center_count(6) == 2);
        assert(29int / 2int == 14int);
        assert(center_step(6) == 28);
        assert(alignment_centers(6) =~= annex_e_centers(6));
    } else if version == 7 {
        assert(center_count(7) == 3);
        assert(35int / 4int == 8int);
        assert(center_step(7) == 16);
        assert(alignment_centers(7) =~= annex_e_centers(7));
    } else if version == 8 {
        assert(center_count(8) == 3);
        assert(39int / 4int == 9int);
        assert(center_step(8) == 18);
        assert(alignment_centers(8) =~= annex_e_centers(8));
    } else if version == 9 {
        assert(center_count(9) == 3);
        assert(43int / 4int == 10int);
        assert(center_step(9) == 20);
        assert(alignment_centers(9) =~= annex_e_centers(9));
    } else if version == 10 {
        assert(center_count(10) == 3);
        assert(47int / 4int == 11int);
        assert(center_step(10) == 22);
        assert(alignment_centers(10) =~= annex_e_centers(10));
    } else if version == 11 {
        assert(center_count(11) == 3);
        assert(51int / 4int == 12int);
        assert(center_step(11) == 24);
        assert(alignment_centers(11) =~= annex_e_centers(11));
    } else if version == 12 {
        assert(center_count(12) == 3);
        assert(55int / 4int == 13int);
        assert(center_step(12) == 26);
        assert(alignment_centers(12) =~= annex_e_centers(12));
    } else if version == 13 {
        assert(center_count(13) == 3);
        assert(59int / 4int == 14int);
        assert(center_step(13) == 28);
        assert(alignment_centers(13) =~= annex_e_centers(13));
    } else if version == 14 {
        assert(center_count(14) == 4);
        assert(65int / 6int == 10int);
        assert(center_step(14) == 20);
        assert(alignment_centers(14) =~= annex_e_centers(14));
    } else if version == 15 {
        assert(center_count(15) == 4);
        assert(69int / 6int == 11int);
        assert(center_step(15) == 22);
        assert(alignment_centers(15) =~= annex_e_centers(15));
    } else if version == 16 {
        assert(center_count(16) == 4);
        assert(73int / 6int == 12int);
        assert(center_step(16) == 24);
        assert(alignment_centers(16) =~= annex_e_centers(16));
    } else if version == 17 {
        assert(center_count(17) == 4);
        assert(77int / 6int == 12int);
        assert(center_step(17) == 24);
        assert(alignment_centers(17) =~= annex_e_centers(17));
    } else if version == 18 {
        assert(center_count(18) == 4);
        assert(81int / 6int == 13int);
        assert(center_step(18) == 26);
        assert(alignment_centers(18) =~= annex_e_centers(18));
    } else if version == 19 {
        assert(center_count(19) == 4);
        assert(85int / 6int == 14int);
        assert(center_step(19) == 28);
        assert(alignment_centers(19) =~= annex_e_centers(19));
    } else if version == 20 {
        assert(center_count(20) == 4);
        assert(89int / 6int == 14int);
        assert(center_step(20) == 28);
        assert(alignment_centers(20) =~= annex_e_centers(20));
    } else if version == 21 {
        assert(center_count(21) == 5);
        assert(95int / 8int == 11int);
        assert(center_step(21) == 22);
        assert(alignment_centers(21) =~= annex_e_centers(21));
    } else if version == 22 {
        assert(center_count(22) == 5);
        assert(99int / 8int == 12int);
        assert(center_step(22) == 24);
        assert(alignment_centers(22) =~= annex_e_centers(22));
    } else if version == 23 {
        assert(center_count(23) == 5);
        assert(103int / 8int == 12int);
        assert(center_step(23) == 24);
        assert(alignment_centers(23) =~= annex_e_centers(23));
    } else if version == 24 {
        assert(center_count(24) == 5);
        assert(107int / 8int == 13int);
        assert(center_step(24) == 26);
        assert(alignment_centers(24) =~= annex_e_centers(24));
    } else if version == 25 {
        assert(center_count(25) == 5);
        assert(111int / 8int == 13int);
        assert(center_step(25) == 26);
        assert(alignment_centers(25) =~= annex_e_centers(25));
    } else if version == 26 {
        assert(center_count(26) == 5);
        assert(115int / 8int == 14int);
        assert(center_step(26) == 28);
        assert(alignment_centers(26) =~= annex_e_centers(26));
    } else if version == 27 {
        assert(center_count(27) == 5);
        assert(119int / 8int == 14int);
        assert(center_step(27) == 28);
        assert(alignment_centers(27) =~= annex_e_centers(27));
    } else if version == 28 {
        assert(center_count(28) == 6);
        assert(125int / 10int == 12int);
        assert(center_step(28) == 24);
        assert(alignment_centers(28) =~= annex_e_centers(28));
    } else if version == 29 {
        assert(center_count(29) == 6);
        assert(129int / 10int == 12int);
        assert(center_step(29) == 24);
        assert(alignment_centers(29) =~= annex_e_centers(29));
    } else if version == 30 {
        assert(center_count(30) == 6);
        assert(133int / 10int == 13int);
        assert(center_step(30) == 26);
        assert(alignment_centers(30) =~= annex_e_centers(30));
    } else if version == 31 {
        assert(center_count(31) == 6);
        assert(137int / 10int == 13int);
        assert(center_step(31) == 26);
        assert(alignment_centers(31) =~= annex_e_centers(31));
    } else if version == 32 {
        assert(center_count(32) == 6);
        assert(center_step(32) == 26);
        assert(alignment_centers(32) =~= annex_e_centers(32));
    } else if version == 33 {
        assert(center_count(33) == 6);
        assert(145int / 10int == 14int);
        assert(center_step(33) == 28);
        assert(alignment_centers(33) =~= annex_e_centers(33));
    } else if version == 34 {
        assert(center_count(34) == 6);
        assert(149int / 10int == 14int);
        assert(center_step(34) == 28);
        assert(alignment_centers(34) =~= annex_e_centers(34));
    } else if version == 35 {
        assert(center_count(35) == 7);
        assert(155int / 12int == 12int);
        assert(center_step(35) == 24);
        assert(alignment_centers(35) =~= annex_e_centers(35));
    } else if version == 36 {
        assert(center_count(36) == 7);
        assert(159int / 12int == 13int);
        assert(center_step(36) == 26);
        assert(alignment_centers(36) =~= annex_e_centers(36));
    } else if version == 37 {
        assert(center_count(37) == 7);
        assert(163int / 12int == 13int);
        assert(center_step(37) == 26);
        assert(alignment_centers(37) =~= annex_e_centers(37));
    } else if version == 38 {
        assert(center_count(38) == 7);
        assert(167int / 12int == 13int);
        assert(center_step(38) == 26);
        assert(alignment_centers(38) =~= annex_e_centers(38));
    } else if version == 39 {
        assert(center_count(39) == 7);
        assert(171int / 12int == 14int);
        assert(center_step(39) == 28);
        assert(alignment_centers(39) =~= annex_e_centers(39));
    } else if version == 40 {
        assert(center_count(40) == 7);
        assert(175int / 12int == 14int);
        assert(center_step(40) == 28);
        assert(alignment_centers(40) =~= annex_e_centers(40));
    } else {
        assert(alignment_centers(version) =~= annex_e_centers(version));
    }
}

/// A pair is an alignment position of `version` exactly when both of its
/// coordinates are in the Annex E row of that version and it does not lie on
/// a finder-pattern corner.
pub proof fn lemma_alignment_positions_table(version: int, p: (usize, usize))
    ensures
        alignment_positions(version).contains(p) <==> (annex_e_centers(version).contains(
            p.0 as int,
        ) && annex_e_centers(version).contains(p.1 as int) && !in_finder_corner(
            p.0 as int,
            p.1 as int,
            17 + 4 * version,
        )),
{
    lemma_alignment_centers_table(version);
    lemma_alignment_position_membership(version, p);
}


/// Every Annex E coordinate of a version is 6, the last one `4 v + 10`, or
/// lies strictly between the finder patterns (9 to `4 v + 7`).
proof fn lemma_annex_e_entries(version: int)
    requires
        2 <= version <= 40,
    ensures
        forall|k: int|
            0 <= k < annex_e_centers(version).len() ==> {
                let c = #[trigger] annex_e_centers(version)[k];
                c == 6 || c == 4 * version + 10 || (9 <= c <= 4 * version + 7)
            },
{
    if version == 2 {
        let t = annex_e_centers(2);
        assert forall|k: int| 0 <= k < t.len() implies {
            let c = #[trigger] t[k];
            c == 6 || c == 18 || (9 <= c <= 15)
        } by {}
    } else if version == 3 {
        let t = annex_e_centers(3);
        assert forall|k: int| 0 <= k < t.len() implies {
            let c = #[trigger] t[k];
            c == 6 || c == 22 || (9 <= c <= 19)
        } by {}
    } else if version == 4 {
        let t = annex_e_centers(4);
        assert forall|k: int| 0 <= k < t.len() implies {
            let c = #[trigger] t[k];
            c == 6 || c == 26 || (9 <= c <= 23)
        } by {}
    } else if version == 5 {
        let t = annex_e_centers(5);
        assert forall|k: int| 0 <= k < t.len() implies {
            let c = #[trigger] t[k];
            c == 6 || c == 30 || (9 <= c <= 27)
        } by {}
    } else if version == 6 {
        let t = annex_e_centers(6);
        assert forall|k: int| 0 <= k < t.len() implies {
            let c = #[trigger] t[k];
            c == 6 || c == 34 || (9 <= c <= 31)
        } by {}
    } else if version == 7 {
        let t = annex_e_centers(7);
        assert forall|k: int| 0 <= k < t.len() implies {
            let c = #[trigger] t[k];
            c == 6 || c == 38 || (9 <= c <= 35)
        } by {}
    } else if version == 8 {
        let t = annex_e_centers(8);
        assert forall|k: int| 0 <= k < t.len() implies {
            let c = #[trigger] t[k];
            c == 6 || c == 42 || (9 <= c <= 39)
        } by {}
    } else if version == 9 {
        let t = annex_e_centers(9);
        assert forall|k: int| 0 <= k < t.len() implies {
            let c = #[trigger] t[k];
            c == 6 || c == 46 || (9 <= c <= 43)
        } by {}
    } else if version == 10 {
        let t = annex_e_centers(10);
        assert forall|k: int| 0 <= k < t.len() implies {
            let c = #[trigger] t[k];
            c == 6 || c == 50 || (9 <= c <= 47)
        } by {}
    } else if version == 11 {
        let t = annex_e_centers(11);
        assert forall|k: int| 0 <= k < t.len() implies {
            let c = #[trigger] t[k];
            c == 6 || c == 54 || (9 <= c <= 51)
        } by {}
    } else if version == 12 {
        let t = annex_e_centers(12);
        assert forall|k: int| 0 <= k < t.len() implies {
            let c = #[trigger] t[k];
            c == 6 || c == 58 || (9 <= c <= 55)
        } by {}
    } else if version == 13 {
        let t = annex_e_centers(13);
        assert forall|k: int| 0 <= k < t.len() implies {
            let c = #[trigger] t[k];
            c == 6 || c == 62 || (9 <= c <= 59)
        } by {}
    } else if version == 14 {
        let t = annex_e_centers(14);
        assert forall|k: int| 0 <= k < t.len() implies {
            let c = #[trigger] t[k];
            c == 6 || c == 66 || (9 <= c <= 63)
        } by {}
    } else if version == 15 {
        let t = annex_e_centers(15);
        assert forall|k: int| 0 <= k < t.len() implies {
            let c = #[trigger] t[k];
            c == 6 || c == 70 || (9 <= c <= 67)
        } by {}
    } else if version == 16 {
        let t = annex_e_centers(16);
        assert forall|k: int| 0 <= k < t.len() implies {
            let c = #[trigger] t[k];
            c == 6 || c == 74 || (9 <= c <= 71)
        } by {}
    } else if version == 17 {
        let t = annex_e_centers(17);
        assert forall|k: int| 0 <= k < t.len() implies {
            let c = #[trigger] t[k];
            c == 6 || c == 78 || (9 <= c <= 75)
        } by {}
    } else if version == 18 {
        let t = annex_e_centers(18);
        assert forall|k: int| 0 <= k < t.len() implies {
            let c = #[trigger] t[k];
            c == 6 || c == 82 || (9 <= c <= 79)
        } by {}
    } else if version == 19 {
        let t = annex_e_centers(19);
        assert forall|k: int| 0 <= k < t.len() implies {
            let c = #[trigger] t[k];
            c == 6 || c == 86 || (9 <= c <= 83)
        } by {}
    } else if version == 20 {
        let t = annex_e_centers(20);
        assert forall|k: int| 0 <= k < t.len() implies {
            let c = #[trigger] t[k];
            c == 6 || c == 90 || (9 <= c <= 87)
        } by {}
    } else if version == 21 {
        let t = annex_e_centers(21);
        assert forall|k: int| 0 <= k < t.len() implies {
            let c = #[trigger] t[k];
            c == 6 || c == 94 || (9 <= c <= 91)
        } by {}
    } else if version == 22 {
        let t = annex_e_centers(22);
        assert forall|k: int| 0 <= k < t.len() implies {
            let c = #[trigger] t[k];
            c == 6 || c == 98 || (9 <= c <= 95)
        } by {}
    } else if version == 23 {
        let t = annex_e_centers(23);
        assert forall|k: int| 0 <= k < t.len() implies {
            let c = #[trigger] t[k];
            c == 6 || c == 102 || (9 <= c <= 99)
        } by {}
    } else if version == 24 {
        let t = annex_e_centers(24);
        assert forall|k: int| 0 <= k < t.len() implies {
            let c = #[trigger] t[k];
            c == 6 || c == 106 || (9 <= c <= 103)
        } by {}
    } else if version == 25 {
        let t = annex_e_centers(25);
        assert forall|k: int| 0 <= k < t.len() implies {
            let c = #[trigger] t[k];
            c == 6 || c == 110 || (9 <= c <= 107)
        } by {}
    } else if version == 26 {
        let t = annex_e_centers(26);
        assert forall|k: int| 0 <= k < t.len() implies {
            let c = #[trigger] t[k];
            c == 6 || c == 114 || (9 <= c <= 111)
        } by {}
    } else if version == 27 {
        let t = annex_e_centers(27);
        assert forall|k: int| 0 <= k < t.len() implies {
            let c = #[trigger] t[k];
            c == 6 || c == 118 || (9 <= c <= 115)
        } by {}
    } else if version == 28 {
        let t = annex_e_centers(28);
        assert forall|k: int| 0 <= k < t.len() implies {
            let c = #[trigger] t[k];
            c == 6 || c == 122 || (9 <= c <= 119)
        } by {}
    } else if version == 29 {
        let t = annex_e_centers(29);
        assert forall|k: int| 0 <= k < t.len() implies {
            let c = #[trigger] t[k];
            c == 6 || c == 126 || (9 <= c <= 123)
        } by {}
    } else if version == 30 {
        let t = annex_e_centers(30);
        assert forall|k: int| 0 <= k < t.len() implies {
            let c = #[trigger] t[k];
            c == 6 || c == 130 || (9 <= c <= 127)
        } by {}
    } else if version == 31 {
        let t = annex_e_centers(31);
        assert forall|k: int| 0 <= k < t.len() implies {
            let c = #[trigger] t[k];
            c == 6 || c == 134 || (9 <= c <= 131)
        } by {}
    } else if version == 32 {
        let t = annex_e_centers(32);
        assert forall|k: int| 0 <= k < t.len() implies {
            let c = #[trigger] t[k];
            c == 6 || c == 138 || (9 <= c <= 135)
        } by {}
    } else if version == 33 {
        let t = annex_e_centers(33);
        assert forall|k: int| 0 <= k < t.len() implies {
            let c = #[trigger] t[k];
            c == 6 || c == 142 || (9 <= c <= 139)
        } by {}
    } else if version == 34 {
        let t = annex_e_centers(34);
        assert forall|k: int| 0 <= k < t.len() implies {
            let c = #[trigger] t[k];
            c == 6 || c == 146 || (9 <= c <= 143)
        } by {}
    } else if version == 35 {
        let t = annex_e_centers(35);
        assert forall|k: int| 0 <= k < t.len() implies {
            let c = #[trigger] t[k];
            c == 6 || c == 150 || (9 <= c <= 147)
        } by {}
    } else if version == 36 {
        let t = annex_e_centers(36);
        assert forall|k: int| 0 <= k < t.len() implies {
            let c = #[trigger] t[k];
            c == 6 || c == 154 || (9 <= c <= 151)
        } by {}
    } else if version == 37 {
        let t = annex_e_centers(37);
        assert forall|k: int| 0 <= k < t.len() implies {
            let c = #[trigger] t[k];
            c == 6 || c == 158 || (9 <= c <= 155)
        } by {}
    } else if version == 38 {
        let t = annex_e_centers(38);
        assert forall|k: int| 0 <= k < t.len() implies {
            let c = #[trigger] t[k];
            c == 6 || c == 162 || (9 <= c <= 159)
        } by {}
    } else if version == 39 {
        let t = annex_e_centers(39);
        assert forall|k: int| 0 <= k < t.len() implies {
            let c = #[trigger] t[k];
            c == 6 || c == 166 || (9 <= c <= 163)
        } by {}
    } else if version == 40 {
        let t = annex_e_centers(40);
        assert forall|k: int| 0 <= k < t.len() implies {
            let c = #[trigger] t[k];
            c == 6 || c == 170 || (9 <= c <= 167)
        } by {}
    }
}

/// The alignment positions of a version, exactly: every pair of Annex E
/// coordinates of that version except the three that sit on the finder
/// patterns, `(6, 6)`, `(6, 4 v + 10)` and `(4 v + 10, 6)`.
pub proof fn lemma_alignment_positions_exact(version: int, p: (usize, usize))
    ensures
        alignment_positions(version).contains(p) <==> ({
            let last = 4 * version + 10;
            let (r, c) = (p.0 as int, p.1 as int);
            &&& annex_e_centers(version).contains(r)
            &&& annex_e_centers(version).contains(c)
            &&& !(r == 6 && c == 6)
            &&& !(r == 6 && c == last)
            &&& !(r == last && c == 6)
        }),
{
    lemma_alignment_positions_table(version, p);
    let t = annex_e_centers(version);
    if 2 <= version <= 40 {
        lemma_annex_e_entries(version);
        if t.contains(p.0 as int) {
            let k = choose|k: int| 0 <= k < t.len() && t[k] == p.0 as int;
            assert(t[k] == p.0 as int);
        }
        if t.contains(p.1 as int) {
            let k = choose|k: int| 0 <= k < t.len() && t[k] == p.1 as int;
            assert(t[k] == p.1 as int);
        }
    } else {
        assert(t =~= Seq::<int>::empty());
    }
}

} // verus!
