//! What the connected regions of a bit matrix are: cells of one value joined
//! through their eight neighbours, each region summarised by its bounding
//! box.

use vstd::prelude::*;
use crate::models::matrix::BitMatrix;

verus! {

/// A bounding box `(min_x, min_y, max_x, max_y)`.
pub type BBox = (usize, usize, usize, usize);

/// Cell `i` of the row-major grid lies in the grid and holds `value`.
pub open spec fn holds(m: BitMatrix, value: bool, i: int) -> bool {
    let w = m.spec_width() as int;
    &&& 0 <= i < w * (m.spec_height() as int)
    &&& m.cell(i % w, i / w) == value
}

/// Cells `i` and `j` of a `w`-wide grid are distinct and touch by an edge or
/// a corner.
pub open spec fn adjacent(w: int, i: int, j: int) -> bool {
    &&& i != j
    &&& -1 <= i % w - j % w <= 1
    &&& -1 <= i / w - j / w <= 1
}

/// `p` is a walk through cells holding `value`, each step to a neighbour.
pub open spec fn is_path(m: BitMatrix, value: bool, p: Seq<int>) -> bool {
    &&& p.len() >= 1
    &&& forall|k: int| 0 <= k < p.len() ==> holds(m, value, #[trigger] p[k])
    &&& forall|k: int|
        0 <= k < p.len() - 1 ==> adjacent(m.spec_width() as int, #[trigger] p[k], p[k + 1])
}

/// Cells `i` and `j` belong to the same region of `value` cells.
pub open spec fn connected(m: BitMatrix, value: bool, i: int, j: int) -> bool {
    exists|p: Seq<int>| #[trigger] is_path(m, value, p) && p[0] == i && p.last() == j
}

/// Every cell holding `value` is connected to itself.
pub proof fn lemma_connected_refl(m: BitMatrix, value: bool, i: int)
    requires
        holds(m, value, i),
    ensures
        connected(m, value, i, i),
{
    let p = seq![i];
    assert(is_path(m, value, p));
}

/// Neighbouring cells holding `value` are connected.
pub proof fn lemma_adjacent_connected(m: BitMatrix, value: bool, i: int, j: int)
    requires
        holds(m, value, i),
        holds(m, value, j),
        adjacent(m.spec_width() as int, i, j),
    ensures
        connected(m, value, i, j),
{
    let p = seq![i, j];
    assert(is_path(m, value, p));
}

/// Connection is symmetric.
pub proof fn lemma_connected_sym(m: BitMatrix, value: bool, i: int, j: int)
    requires
        connected(m, value, i, j),
    ensures
        connected(m, value, j, i),
{
    let p = choose|p: Seq<int>| #[trigger] is_path(m, value, p) && p[0] == i && p.last() == j;
    let q = p.reverse();
    assert forall|k: int| 0 <= k < q.len() - 1 implies adjacent(
        m.spec_width() as int,
        #[trigger] q[k],
        q[k + 1],
    ) by {
        assert(q[k] == p[p.len() - 1 - k]);
        assert(q[k + 1] == p[p.len() - 2 - k]);
        assert(adjacent(m.spec_width() as int, p[p.len() - 2 - k], p[p.len() - 1 - k]));
    }
    assert forall|k: int| 0 <= k < q.len() implies holds(m, value, #[trigger] q[k]) by {
        assert(q[k] == p[p.len() - 1 - k]);
    }
    assert(is_path(m, value, q));
}

/// Connection is transitive.
pub proof fn lemma_connected_trans(m: BitMatrix, value: bool, i: int, j: int, k: int)
    requires
        connected(m, value, i, j),
        connected(m, value, j, k),
    ensures
        connected(m, value, i, k),
{
    let p = choose|p: Seq<int>| #[trigger] is_path(m, value, p) && p[0] == i && p.last() == j;
    let q = choose|q: Seq<int>| #[trigger] is_path(m, value, q) && q[0] == j && q.last() == k;
    let r = p + q.drop_first();
    assert forall|t: int| 0 <= t < r.len() implies holds(m, value, #[trigger] r[t]) by {
        if t < p.len() {
            assert(r[t] == p[t]);
        } else {
            assert(r[t] == q[t - p.len() + 1]);
        }
    }
    assert forall|t: int| 0 <= t < r.len() - 1 implies adjacent(
        m.spec_width() as int,
        #[trigger] r[t],
        r[t + 1],
    ) by {
        if t < p.len() - 1 {
            assert(r[t] == p[t] && r[t + 1] == p[t + 1]);
        } else if t == p.len() - 1 {
            assert(r[t] == p.last());
            assert(r[t + 1] == q[1]);
            assert(q[0] == j);
        } else {
            assert(r[t] == q[t - p.len() + 1]);
            assert(r[t + 1] == q[t - p.len() + 2]);
        }
    }
    if q.len() == 1 {
        assert(r =~= p);
    } else {
        assert(r.last() == q.last());
    }
    assert(is_path(m, value, r));
}

/// A labelling `f` that agrees on every pair of neighbouring `value` cells
/// agrees along every path, so on every connected pair.
pub proof fn lemma_constant_on_paths(m: BitMatrix, value: bool, f: spec_fn(int) -> int, p: Seq<int>)
    requires
        is_path(m, value, p),
        forall|i: int, j: int|
            holds(m, value, i) && holds(m, value, j) && adjacent(m.spec_width() as int, i, j)
                ==> #[trigger] f(i) == #[trigger] f(j),
    ensures
        f(p[0]) == f(p.last()),
    decreases p.len(),
{
    if p.len() > 1 {
        let q = p.drop_last();
        assert forall|k: int| 0 <= k < q.len() implies holds(m, value, #[trigger] q[k]) by {
            assert(q[k] == p[k]);
        }
        assert forall|k: int| 0 <= k < q.len() - 1 implies adjacent(
            m.spec_width() as int,
            #[trigger] q[k],
            q[k + 1],
        ) by {
            assert(q[k] == p[k] && q[k + 1] == p[k + 1]);
        }
        lemma_constant_on_paths(m, value, f, q);
        assert(adjacent(m.spec_width() as int, p[p.len() - 2], p[p.len() - 1]));
        assert(holds(m, value, p[p.len() - 2]));
        assert(holds(m, value, p[p.len() - 1]));
        assert(f(p[p.len() - 2]) == f(p[p.len() - 1]));
    }
}

/// `b` widened to contain `(x, y)`; a box of that one cell when there is no
/// box yet.
pub open spec fn extend_box(b: Option<BBox>, x: usize, y: usize) -> Option<BBox> {
    match b {
        None => Some((x, y, x, y)),
        Some(b) => Some(
            (
                if x < b.0 { x } else { b.0 },
                if y < b.1 { y } else { b.1 },
                if x > b.2 { x } else { b.2 },
                if y > b.3 { y } else { b.3 },
            ),
        ),
    }
}

/// The bounding box of the `value` cells among the first `k` that are
/// members; `None` when there are none.
pub open spec fn box_of(m: BitMatrix, value: bool, member: spec_fn(int) -> bool, k: int) -> Option<
    BBox,
>
    decreases k,
{
    if k <= 0 {
        None
    } else {
        let prev = box_of(m, value, member, k - 1);
        let w = m.spec_width() as int;
        if holds(m, value, k - 1) && member(k - 1) {
            extend_box(prev, ((k - 1) % w) as usize, ((k - 1) / w) as usize)
        } else {
            prev
        }
    }
}

/// Cell `i` holds `value` and no earlier `value` cell is related to it.
pub open spec fn is_first(m: BitMatrix, value: bool, same: spec_fn(int, int) -> bool, i: int) -> bool {
    &&& holds(m, value, i)
    &&& forall|j: int| 0 <= j < i && holds(m, value, j) ==> !#[trigger] same(i, j)
}

/// One box per class of `same` among the first `k` cells, in the order of
/// each class's first cell; each box covers the class's cells in the whole
/// grid.
pub open spec fn class_boxes(m: BitMatrix, value: bool, same: spec_fn(int, int) -> bool, k: int) -> Seq<
    BBox,
>
    decreases k,
{
    if k <= 0 {
        Seq::empty()
    } else {
        let prev = class_boxes(m, value, same, k - 1);
        if is_first(m, value, same, k - 1) {
            prev.push(
                box_of(
                    m,
                    value,
                    |j: int| same(k - 1, j),
                    (m.spec_width() as int) * (m.spec_height() as int),
                ).unwrap(),
            )
        } else {
            prev
        }
    }
}

/// Connection as a relation.
pub open spec fn connected_rel(m: BitMatrix, value: bool) -> spec_fn(int, int) -> bool {
    |i: int, j: int| connected(m, value, i, j)
}

/// The bounding boxes of the connected regions of `value` cells, one per
/// region, in the raster order of each region's first cell.
pub open spec fn region_boxes(m: BitMatrix, value: bool) -> Seq<BBox> {
    class_boxes(
        m,
        value,
        connected_rel(m, value),
        (m.spec_width() as int) * (m.spec_height() as int),
    )
}

/// Some member holds `value` below `k`, so the box exists.
pub proof fn lemma_box_of_some(m: BitMatrix, value: bool, member: spec_fn(int) -> bool, i: int, k: int)
    requires
        0 <= i < k,
        holds(m, value, i),
        member(i),
    ensures
        box_of(m, value, member, k) is Some,
    decreases k,
{
    if k - 1 > i {
        lemma_box_of_some(m, value, member, i, k - 1);
    }
}

/// Membership predicates that agree on the `value` cells give the same box.
pub proof fn lemma_box_of_agree(
    m: BitMatrix,
    value: bool,
    a: spec_fn(int) -> bool,
    b: spec_fn(int) -> bool,
    k: int,
)
    requires
        forall|j: int| 0 <= j < k && holds(m, value, j) ==> a(j) == b(j),
    ensures
        box_of(m, value, a, k) == box_of(m, value, b, k),
    decreases k,
{
    if k > 0 {
        lemma_box_of_agree(m, value, a, b, k - 1);
    }
}

/// Relations that agree on pairs of `value` cells give the same boxes.
pub proof fn lemma_class_boxes_agree(
    m: BitMatrix,
    value: bool,
    a: spec_fn(int, int) -> bool,
    b: spec_fn(int, int) -> bool,
    k: int,
)
    requires
        forall|i: int, j: int| holds(m, value, i) && holds(m, value, j) ==> a(i, j) == b(i, j),
        k <= (m.spec_width() as int) * (m.spec_height() as int),
    ensures
        class_boxes(m, value, a, k) == class_boxes(m, value, b, k),
    decreases k,
{
    if k > 0 {
        lemma_class_boxes_agree(m, value, a, b, k - 1);
        let n = (m.spec_width() as int) * (m.spec_height() as int);
        assert(is_first(m, value, a, k - 1) == is_first(m, value, b, k - 1)) by {
            if holds(m, value, k - 1) {
                assert forall|j: int| 0 <= j < k - 1 && holds(m, value, j) implies a(k - 1, j) == b(
                    k - 1,
                    j,
                ) by {}
            }
        }
        if is_first(m, value, a, k - 1) {
            lemma_box_of_agree(m, value, |j: int| a(k - 1, j), |j: int| b(k - 1, j), n);
        }
    }
}

/// A box lies in a `width` x `height` grid with ordered corners.
pub open spec fn bbox_in_grid(b: BBox, width: int, height: int) -> bool {
    b.0 <= b.2 < width && b.1 <= b.3 < height
}

proof fn lemma_box_of_in_grid(m: BitMatrix, value: bool, member: spec_fn(int) -> bool, k: int)
    requires
        0 <= k,
    ensures
        box_of(m, value, member, k) matches Some(b) ==> bbox_in_grid(
            b,
            m.spec_width() as int,
            m.spec_height() as int,
        ),
    decreases k,
{
    if k > 0 {
        lemma_box_of_in_grid(m, value, member, k - 1);
        let w = m.spec_width() as int;
        let h = m.spec_height() as int;
        let i = k - 1;
        if holds(m, value, i) && member(i) {
            assert(0 <= i % w < w && 0 <= i / w < h) by (nonlinear_arith)
                requires
                    0 <= i < w * h,
                    w >= 0,
                    h >= 0,
            ;
        }
    }
}

proof fn lemma_class_boxes_in_grid(m: BitMatrix, value: bool, same: spec_fn(int, int) -> bool, k: int)
    requires
        forall|i: int| holds(m, value, i) ==> #[trigger] same(i, i),
    ensures
        forall|t: int|
            0 <= t < class_boxes(m, value, same, k).len() ==> bbox_in_grid(
                #[trigger] class_boxes(m, value, same, k)[t],
                m.spec_width() as int,
                m.spec_height() as int,
            ),
    decreases k,
{
    if k > 0 {
        lemma_class_boxes_in_grid(m, value, same, k - 1);
        let w = m.spec_width() as int;
        let h = m.spec_height() as int;
        let n = w * h;
        let cur = class_boxes(m, value, same, k);
        let prev = class_boxes(m, value, same, k - 1);
        if is_first(m, value, same, k - 1) {
            let member = |j: int| same(k - 1, j);
            assert(cur == prev.push(box_of(m, value, member, n).unwrap()));
            assert(same(k - 1, k - 1));
            assert(0 <= k - 1 < n);
            lemma_box_of_some(m, value, member, k - 1, n);
            lemma_box_of_in_grid(m, value, member, n);
            assert forall|t: int| 0 <= t < cur.len() implies bbox_in_grid(
                #[trigger] cur[t],
                w,
                h,
            ) by {
                if t < prev.len() {
                    assert(cur[t] == prev[t]);
                }
            }
        }
    }
}

/// Every region box lies inside the grid, with its corners in order.
pub proof fn lemma_region_boxes_in_grid(m: BitMatrix, value: bool)
    ensures
        forall|t: int|
            0 <= t < region_boxes(m, value).len() ==> bbox_in_grid(
                #[trigger] region_boxes(m, value)[t],
                m.spec_width() as int,
                m.spec_height() as int,
            ),
{
    let same = connected_rel(m, value);
    assert forall|i: int| holds(m, value, i) implies #[trigger] same(i, i) by {
        lemma_connected_refl(m, value, i);
    }
    lemma_class_boxes_in_grid(
        m,
        value,
        same,
        (m.spec_width() as int) * (m.spec_height() as int),
    );
}

} // verus!
