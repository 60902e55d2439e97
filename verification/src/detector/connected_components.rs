//! Connected components of a bit matrix, found with a union-find forest.

use vstd::prelude::*;
use crate::models::matrix::BitMatrix;
use crate::detector::regions::{
    BBox, adjacent, box_of, class_boxes, connected, connected_rel, holds, is_first, is_path,
    lemma_adjacent_connected, lemma_box_of_agree, lemma_box_of_some, lemma_class_boxes_agree,
    lemma_connected_refl, lemma_connected_sym, lemma_connected_trans, lemma_constant_on_paths,
    region_boxes,
};

verus! {

/// Union-find over `0..n` with path compression.
///
/// Each node records a ghost rank that grows strictly along parent links, so
/// every chain of parents ends at a root.
pub struct UnionFind {
    parent: Vec<u32>,
    rank: Ghost<Seq<nat>>,
    max_rank: Ghost<nat>,
}

/// The forest `parent` is well formed with respect to `rank`: parents are in
/// range, ranks are bounded by `max_rank`, and a non-root's parent has
/// strictly greater rank.
pub open spec fn forest_wf(parent: Seq<u32>, rank: Seq<nat>, max_rank: nat) -> bool {
    &&& parent.len() == rank.len()
    &&& parent.len() <= u32::MAX
    &&& forall|i: int| 0 <= i < parent.len() ==> (#[trigger] parent[i]) < parent.len()
    &&& forall|i: int| 0 <= i < parent.len() ==> #[trigger] rank[i] <= max_rank
    &&& forall|i: int|
        0 <= i < parent.len() && parent[i] != i ==> rank[i] < #[trigger] rank[parent[i] as int]
}

/// The root reached by following parent links from `i`.
pub open spec fn root_of(parent: Seq<u32>, rank: Seq<nat>, max_rank: nat, i: int) -> int
    decreases max_rank - rank[i],
    when forest_wf(parent, rank, max_rank) && 0 <= i < parent.len()
{
    if parent[i] == i {
        i
    } else {
        root_of(parent, rank, max_rank, parent[i] as int)
    }
}

/// A root is its own parent, and a node's root is its parent's root.
pub proof fn lemma_root_of(parent: Seq<u32>, rank: Seq<nat>, max_rank: nat, i: int)
    requires
        forest_wf(parent, rank, max_rank),
        0 <= i < parent.len(),
    ensures
        0 <= root_of(parent, rank, max_rank, i) < parent.len(),
        parent[root_of(parent, rank, max_rank, i)] == root_of(parent, rank, max_rank, i),
        rank[i] <= rank[root_of(parent, rank, max_rank, i)],
        parent[i] != i ==> rank[i] < rank[root_of(parent, rank, max_rank, i)],
        parent[i] != i ==> root_of(parent, rank, max_rank, i) == root_of(
            parent,
            rank,
            max_rank,
            parent[i] as int,
        ),
    decreases max_rank - rank[i],
{
    if parent[i] != i {
        lemma_root_of(parent, rank, max_rank, parent[i] as int);
    }
}

/// Redirecting node `x` straight to its root changes no node's root.
proof fn lemma_compress_keeps_roots(
    parent: Seq<u32>,
    rank: Seq<nat>,
    max_rank: nat,
    x: int,
    r: u32,
    j: int,
)
    requires
        forest_wf(parent, rank, max_rank),
        0 <= x < parent.len(),
        r as int == root_of(parent, rank, max_rank, x),
        0 <= j < parent.len(),
    ensures
        forest_wf(parent.update(x, r), rank, max_rank),
        root_of(parent.update(x, r), rank, max_rank, j) == root_of(parent, rank, max_rank, j),
    decreases max_rank - rank[j],
{
    let p2 = parent.update(x, r);
    lemma_root_of(parent, rank, max_rank, x);
    assert(forest_wf(p2, rank, max_rank)) by {
        assert forall|i: int| 0 <= i < p2.len() && p2[i] != i implies rank[i] < #[trigger] rank[p2[i] as int] by {
            if i == x {
                lemma_root_of(parent, rank, max_rank, x);
            }
        }
    }
    lemma_root_of(parent, rank, max_rank, j);
    if j == x {
        if parent[x] != x {
            lemma_root_of(p2, rank, max_rank, j);
            let rr = root_of(parent, rank, max_rank, x);
            assert(p2[rr] == rr);
            assert(root_of(p2, rank, max_rank, rr) == rr);
        }
    } else if parent[j] != j {
        lemma_compress_keeps_roots(parent, rank, max_rank, x, r, parent[j] as int);
        lemma_root_of(p2, rank, max_rank, j);
    } else {
        assert(p2[j] == j);
    }
}

/// Linking root `rx` below root `ry` (raising `ry`'s rank above `rx`'s)
/// moves exactly the nodes rooted at `rx` to `ry`.
proof fn lemma_link_roots(
    parent: Seq<u32>,
    rank: Seq<nat>,
    max_rank: nat,
    rx: int,
    ry: int,
    j: int,
)
    requires
        forest_wf(parent, rank, max_rank),
        0 <= rx < parent.len(),
        0 <= ry < parent.len(),
        rx != ry,
        parent[rx] == rx,
        parent[ry] == ry,
        0 <= j < parent.len(),
    ensures
        ({
            let p2 = parent.update(rx, ry as u32);
            let new_rank = if rank[ry] > rank[rx] { rank[ry] } else { rank[rx] + 1 };
            let r2 = rank.update(ry, new_rank);
            let m2 = if new_rank > max_rank { new_rank } else { max_rank };
            &&& forest_wf(p2, r2, m2)
            &&& root_of(p2, r2, m2, j) == if root_of(parent, rank, max_rank, j) == rx {
                ry
            } else {
                root_of(parent, rank, max_rank, j)
            }
        }),
    decreases max_rank - rank[j],
{
    let p2 = parent.update(rx, ry as u32);
    let new_rank = if rank[ry] > rank[rx] { rank[ry] } else { rank[rx] + 1 };
    let r2 = rank.update(ry, new_rank);
    let m2 = if new_rank > max_rank { new_rank } else { max_rank };
    assert(forest_wf(p2, r2, m2)) by {
        assert forall|i: int| 0 <= i < p2.len() && p2[i] != i implies r2[i] < #[trigger] r2[p2[i] as int] by {
            if i != rx && parent[i] as int == ry {
                assert(rank[i] < rank[ry]);
            }
        }
        assert forall|i: int| 0 <= i < p2.len() implies #[trigger] r2[i] <= m2 by {}
    }
    lemma_root_of(parent, rank, max_rank, j);
    if j == rx {
        lemma_root_of(p2, r2, m2, j);
        assert(p2[ry] == ry);
        assert(root_of(p2, r2, m2, ry) == ry);
    } else if parent[j] != j {
        lemma_link_roots(parent, rank, max_rank, rx, ry, parent[j] as int);
        lemma_root_of(p2, r2, m2, j);
    } else {
        assert(p2[j] == j);
    }
}

impl UnionFind {
    /// The number of nodes.
    pub closed spec fn size(&self) -> nat {
        self.parent@.len()
    }

    /// The forest is well formed.
    pub closed spec fn wf(&self) -> bool {
        forest_wf(self.parent@, self.rank@, self.max_rank@)
    }

    /// The representative of node `i`'s set.
    pub closed spec fn root(&self, i: int) -> int {
        root_of(self.parent@, self.rank@, self.max_rank@, i)
    }

    /// Nodes `i` and `j` are in the same set.
    pub open spec fn same_set(&self, i: int, j: int) -> bool {
        self.root(i) == self.root(j)
    }

    /// Every representative is a node of the forest and represents itself.
    pub proof fn lemma_root_is_root(&self, i: int)
        requires
            self.wf(),
            0 <= i < self.size(),
        ensures
            0 <= self.root(i) < self.size(),
            self.root(self.root(i)) == self.root(i),
    {
        lemma_root_of(self.parent@, self.rank@, self.max_rank@, i);
        let r = self.root(i);
        lemma_root_of(self.parent@, self.rank@, self.max_rank@, r);
    }

    /// Create `n` singleton sets `0..n`.
    pub fn new(n: usize) -> (uf: Self)
        requires
            n <= u32::MAX,
        ensures
            uf.wf(),
            uf.size() == n,
            forall|i: int| 0 <= i < n ==> #[trigger] uf.root(i) == i,
    {
        let mut parent: Vec<u32> = Vec::with_capacity(n);
        let mut i: usize = 0;
        while i < n
            invariant
                n <= u32::MAX,
                i <= n,
                parent@.len() == i,
                forall|k: int| 0 <= k < i ==> parent@[k] == k,
            decreases n - i,
        {
            parent.push(i as u32);
            i = i + 1;
        }
        let uf = UnionFind { parent, rank: Ghost(Seq::new(n as nat, |k: int| 0nat)), max_rank: Ghost(0nat) };
        proof {
            assert forall|k: int| 0 <= k < n implies #[trigger] uf.root(k) == k by {
                assert(uf.parent@[k] == k);
            }
        }
        uf
    }

    /// The rank of node `i`.
    pub closed spec fn node_rank(&self, i: int) -> nat {
        self.rank@[i]
    }

    /// The bound on every rank.
    pub closed spec fn rank_bound(&self) -> nat {
        self.max_rank@
    }

    /// The parent link of node `i`.
    pub closed spec fn parent_of(&self, i: int) -> int {
        self.parent@[i] as int
    }

    /// The representative of `x`'s set; every node on the way is linked
    /// straight to it, and no set changes.
    pub fn find(&mut self, x: u32) -> (r: u32)
        requires
            old(self).wf(),
            x < old(self).size(),
        ensures
            final(self).wf(),
            final(self).size() == old(self).size(),
            r as int == old(self).root(x as int),
            forall|i: int| 0 <= i < old(self).size() ==> #[trigger] final(self).root(i) == old(self).root(i),
            final(self).rank_bound() == old(self).rank_bound(),
            forall|i: int| 0 <= i < old(self).size() ==> #[trigger] final(self).node_rank(i) == old(self).node_rank(i),
            forall|i: int|
                0 <= i < old(self).size() && old(self).node_rank(i) < old(self).node_rank(x as int)
                    ==> #[trigger] final(self).parent_of(i) == old(self).parent_of(i),
        decreases old(self).rank_bound() - old(self).node_rank(x as int),
    {
        proof {
            lemma_root_of(self.parent@, self.rank@, self.max_rank@, x as int);
        }
        let p = self.parent[x as usize];
        if p != x {
            let ghost before = self.parent@;
            let r = self.find(p);
            let ghost mid = self.parent@;
            proof {
                assert(self.parent_of(x as int) == p as int);
                assert(mid[x as int] == p);
                assert(self.root(p as int) == r as int);
                lemma_root_of(mid, self.rank@, self.max_rank@, x as int);
                assert(r as int == root_of(mid, self.rank@, self.max_rank@, x as int));
                assert forall|j: int| 0 <= j < mid.len() implies root_of(mid.update(x as int, r), self.rank@, self.max_rank@, j)
                    == root_of(mid, self.rank@, self.max_rank@, j) by {
                    lemma_compress_keeps_roots(mid, self.rank@, self.max_rank@, x as int, r, j);
                }
                lemma_compress_keeps_roots(mid, self.rank@, self.max_rank@, x as int, r, x as int);
            }
            let ghost mid_self = *self;
            self.parent.set(x as usize, r);
            proof {
                assert(self.parent@ == mid.update(x as int, r));
                assert forall|i: int| 0 <= i < old(self).size() implies #[trigger] self.root(i) == old(self).root(i) by {
                    assert(mid_self.root(i) == old(self).root(i));
                }
                assert forall|i: int| 0 <= i < old(self).size() implies #[trigger] self.node_rank(i) == old(self).node_rank(i) by {
                    assert(mid_self.node_rank(i) == old(self).node_rank(i));
                }
                assert forall|i: int|
                    0 <= i < old(self).size() && old(self).node_rank(i) < old(self).node_rank(x as int)
                        implies #[trigger] self.parent_of(i) == old(self).parent_of(i) by {
                    assert(old(self).node_rank(x as int) < old(self).node_rank(p as int));
                    assert(mid_self.parent_of(i) == old(self).parent_of(i));
                }
            }
            r
        } else {
            x
        }
    }

    /// Merge the sets of `x` and `y`: every node whose representative was
    /// `x`'s now has `y`'s representative.
    pub fn union(&mut self, x: u32, y: u32)
        requires
            old(self).wf(),
            x < old(self).size(),
            y < old(self).size(),
        ensures
            final(self).wf(),
            final(self).size() == old(self).size(),
            forall|i: int|
                0 <= i < old(self).size() ==> #[trigger] final(self).root(i) == if old(self).root(i) == old(
                    self,
                ).root(x as int) {
                    old(self).root(y as int)
                } else {
                    old(self).root(i)
                },
            final(self).same_set(x as int, y as int),
            forall|i: int, j: int|
                0 <= i < old(self).size() && 0 <= j < old(self).size() && old(self).same_set(i, j)
                    ==> #[trigger] final(self).same_set(i, j),
    {
        let ghost orig = *self;
        let root_x = self.find(x);
        let ghost after_first = *self;
        let root_y = self.find(y);
        proof {
            assert forall|i: int| 0 <= i < orig.size() implies #[trigger] self.root(i) == orig.root(i) by {
                assert(after_first.root(i) == orig.root(i));
            }
        }
        if root_x != root_y {
            let ghost s_mid = *self;
            let ghost p0 = self.parent@;
            let ghost r0 = self.rank@;
            let ghost m0 = self.max_rank@;
            proof {
                assert(self.root(x as int) == root_x as int);
                assert(self.root(y as int) == root_y as int);
                lemma_root_of(p0, r0, m0, x as int);
                lemma_root_of(p0, r0, m0, y as int);
                lemma_root_of(p0, r0, m0, root_x as int);
                lemma_root_of(p0, r0, m0, root_y as int);
            }
            let ghost new_rank = if r0[root_y as int] > r0[root_x as int] {
                r0[root_y as int]
            } else {
                r0[root_x as int] + 1
            };
            self.parent.set(root_x as usize, root_y);
            proof {
                self.rank = Ghost(r0.update(root_y as int, new_rank));
                self.max_rank = Ghost(if new_rank > m0 { new_rank } else { m0 });
                assert forall|j: int| 0 <= j < p0.len() implies root_of(self.parent@, self.rank@, self.max_rank@, j)
                    == if root_of(p0, r0, m0, j) == root_x { root_y as int } else { root_of(p0, r0, m0, j) } by {
                    lemma_link_roots(p0, r0, m0, root_x as int, root_y as int, j);
                }
                lemma_link_roots(p0, r0, m0, root_x as int, root_y as int, 0);
                assert forall|i: int| 0 <= i < orig.size() implies #[trigger] self.root(i) == if orig.root(i)
                    == orig.root(x as int) {
                    orig.root(y as int)
                } else {
                    orig.root(i)
                } by {
                    assert(s_mid.root(i) == orig.root(i));
                }
            }
        }
    }
}



/// Raster order of boxes: by `min_y`, then `min_x`, then `max_y`, then `max_x`.
pub open spec fn bbox_le(a: BBox, b: BBox) -> bool {
    a.1 < b.1 || (a.1 == b.1 && (a.0 < b.0 || (a.0 == b.0 && (a.3 < b.3 || (a.3 == b.3 && a.2 <= b.2)))))
}

/// The boxes are in nondecreasing raster order.
pub open spec fn bboxes_sorted(s: Seq<BBox>) -> bool {
    forall|i: int, j: int| 0 <= i < j < s.len() ==> bbox_le(#[trigger] s[i], #[trigger] s[j])
}

fn bbox_le_exec(a: BBox, b: BBox) -> (r: bool)
    ensures
        r == bbox_le(a, b),
{
    a.1 < b.1 || (a.1 == b.1 && (a.0 < b.0 || (a.0 == b.0 && (a.3 < b.3 || (a.3 == b.3 && a.2 <= b.2)))))
}

/// Sort boxes into raster order (insertion sort).
pub fn sort_bboxes(v: &mut Vec<BBox>)
    ensures
        final(v)@.len() == old(v)@.len(),
        final(v)@.to_multiset() == old(v)@.to_multiset(),
        bboxes_sorted(final(v)@),
{
    let n = v.len();
    let mut i: usize = 1;
    if n == 0 {
        return;
    }
    while i < n
        invariant
            1 <= i <= n,
            n == v@.len(),
            v@.to_multiset() == old(v)@.to_multiset(),
            bboxes_sorted(v@.subrange(0, i as int)),
        decreases n - i,
    {
        let mut j: usize = i;
        proof {
            assert forall|a: int, b: int| 0 <= a < b <= i && a != j && b != j implies bbox_le(
                #[trigger] v@[a],
                #[trigger] v@[b],
            ) by {
                assert(v@.subrange(0, i as int)[a] == v@[a]);
                assert(v@.subrange(0, i as int)[b] == v@[b]);
            }
        }
        while j > 0 && !bbox_le_exec(v[j - 1], v[j])
            invariant
                0 <= j <= i < n,
                n == v@.len(),
                v@.to_multiset() == old(v)@.to_multiset(),
                // the prefix without position j is sorted, and v[j] precedes everything after it
                forall|a: int, b: int|
                    0 <= a < b <= i && a != j && b != j ==> bbox_le(#[trigger] v@[a], #[trigger] v@[b]),
                forall|b: int| j < b <= i ==> bbox_le(v@[j as int], #[trigger] v@[b]),
            decreases j,
        {
            let a = v[j - 1];
            let b = v[j];
            proof {
                lemma_swap_multiset(v@, (j - 1) as int, j as int);
            }
            v.set(j - 1, b);
            v.set(j, a);
            j = j - 1;
        }
        proof {
            assert forall|a: int, b: int| 0 <= a < b < i + 1 implies bbox_le(
                #[trigger] v@.subrange(0, i + 1)[a],
                #[trigger] v@.subrange(0, i + 1)[b],
            ) by {
                if a != j && b != j {
                } else if a == j {
                } else {
                    // b == j and a < j: the loop stopped because v[j - 1] <= v[j]
                    assert(j > 0);
                    assert(bbox_le(v@[j - 1], v@[j as int]));
                    if a < j - 1 {
                        lemma_bbox_le_trans(v@[a], v@[j - 1], v@[j as int]);
                    }
                }
            }
        }
        i = i + 1;
    }
    proof {
        assert(v@.subrange(0, n as int) =~= v@);
    }
}

proof fn lemma_swap_multiset<A>(s: Seq<A>, i: int, j: int)
    requires
        0 <= i < s.len(),
        0 <= j < s.len(),
        i != j,
    ensures
        s.update(i, s[j]).update(j, s[i]).to_multiset() == s.to_multiset(),
{
    let s1 = s.update(i, s[j]);
    vstd::seq_lib::to_multiset_update(s, i, s[j]);
    vstd::seq_lib::to_multiset_update(s1, j, s[i]);
    vstd::seq_lib::to_multiset_contains(s, s[i]);
    vstd::seq_lib::to_multiset_contains(s, s[j]);
    assert(s.update(i, s[j]).update(j, s[i]).to_multiset() =~= s.to_multiset());
}

proof fn lemma_bbox_le_trans(a: BBox, b: BBox, c: BBox)
    requires
        bbox_le(a, b),
        bbox_le(b, c),
    ensures
        bbox_le(a, c),
{
}


/// Widen box `b` to contain `(x, y)`.
fn bbox_extend(b: BBox, x: usize, y: usize) -> (r: BBox)
    ensures
        r.0 == if x < b.0 { x } else { b.0 },
        r.1 == if y < b.1 { y } else { b.1 },
        r.2 == if x > b.2 { x } else { b.2 },
        r.3 == if y > b.3 { y } else { b.3 },
{
    (
        if x < b.0 { x } else { b.0 },
        if y < b.1 { y } else { b.1 },
        if x > b.2 { x } else { b.2 },
        if y > b.3 { y } else { b.3 },
    )
}

proof fn lemma_flat_cell(w: int, x: int, y: int)
    requires
        w > 0,
        0 <= x < w,
        0 <= y,
    ensures
        (y * w + x) % w == x,
        (y * w + x) / w == y,
{
    vstd::arithmetic::div_mod::lemma_fundamental_div_mod_converse(y * w + x, w, y, x);
}

/// The neighbours of cell `(x, y)` that come before it in raster order are
/// its left, upper-left, upper and upper-right cells.
proof fn lemma_earlier_neighbor(w: int, x: int, y: int, j: int)
    requires
        w > 0,
        0 <= x < w,
        0 <= y,
        0 <= j < y * w + x,
        adjacent(w, y * w + x, j),
    ensures
        (x > 0 && j == y * w + x - 1) || (y > 0 && j == (y - 1) * w + x) || (x > 0 && y > 0 && j
            == (y - 1) * w + x - 1) || (x + 1 < w && y > 0 && j == (y - 1) * w + x + 1),
{
    lemma_flat_cell(w, x, y);
    vstd::arithmetic::div_mod::lemma_fundamental_div_mod(j, w);
    let xj = j % w;
    let yj = j / w;
    assert(j == w * yj + xj);
    assert(0 <= xj < w);
    assert(w * yj == yj * w) by (nonlinear_arith);
    if yj >= y + 1 {
        assert(yj * w >= (y + 1) * w) by (nonlinear_arith)
            requires
                yj >= y + 1,
                w > 0,
        ;
        assert((y + 1) * w == y * w + w) by (nonlinear_arith);
    }
    if yj <= y - 2 {
        assert(yj * w <= (y - 2) * w) by (nonlinear_arith)
            requires
                yj <= y - 2,
                w > 0,
        ;
    }
    assert(yj == y || yj == y - 1);
    if yj == y - 1 {
        assert((y - 1) * w == y * w - w) by (nonlinear_arith);
    }
}

/// Root `r` of `uf` is the root of one of the labels `nbr`.
#[verifier::opaque]
pub open spec fn in_classes(uf: UnionFind, nbr: Seq<u32>, r: int) -> bool {
    exists|t: int| 0 <= t < nbr.len() && r == uf.root(#[trigger] nbr[t] as int)
}

/// Labels `s[..k]` are in `min_label`'s set.
pub open spec fn ms_prefix(uf: UnionFind, s: Seq<u32>, min_label: u32, k: int) -> bool {
    forall|t: int| 0 <= t < k ==> uf.root(#[trigger] s[t] as int) == uf.root(min_label as int)
}

/// Every label of `s` is in one of the original sets of `s`.
pub open spec fn ms_classes(uf0: UnionFind, uf: UnionFind, s: Seq<u32>) -> bool {
    forall|t: int| 0 <= t < s.len() ==> in_classes(uf0, s, uf.root(#[trigger] s[t] as int))
}

/// Sets only grow.
pub open spec fn ms_mono(uf0: UnionFind, uf: UnionFind) -> bool {
    forall|a: int, b: int|
        0 <= a < uf0.size() && 0 <= b < uf0.size() && #[trigger] uf0.root(a) == #[trigger] uf0.root(b)
            ==> uf.root(a) == uf.root(b)
}

/// Two nodes share a set only if they did, or both were in original sets
/// of `s`.
pub open spec fn ms_back(uf0: UnionFind, uf: UnionFind, s: Seq<u32>) -> bool {
    forall|a: int, b: int|
        0 <= a < uf0.size() && 0 <= b < uf0.size() && #[trigger] uf.root(a) == #[trigger] uf.root(b)
            ==> uf0.root(a) == uf0.root(b) || (in_classes(uf0, s, uf0.root(a)) && in_classes(
            uf0,
            s,
            uf0.root(b),
        ))
}

/// A node's representative changed only if its original set was one of
/// `s`'s, and then it is the representative of one of those.
pub open spec fn ms_each(uf0: UnionFind, uf: UnionFind, s: Seq<u32>) -> bool {
    forall|i: int|
        0 <= i < uf0.size() ==> #[trigger] uf.root(i) == uf0.root(i) || (in_classes(uf0, s, uf0.root(i))
            && in_classes(uf0, s, uf.root(i)))
}

/// The loop state of `merge_labels`.
#[verifier::opaque]
pub open spec fn merge_state(uf0: UnionFind, uf: UnionFind, s: Seq<u32>, min_label: u32, k: int) -> bool {
    &&& uf.wf()
    &&& uf.size() == uf0.size()
    &&& ms_prefix(uf, s, min_label, k)
    &&& ms_classes(uf0, uf, s)
    &&& ms_mono(uf0, uf)
    &&& ms_back(uf0, uf, s)
    &&& ms_each(uf0, uf, s)
}

/// How `union(min_label, l)` changes representatives.
pub open spec fn union_effect(before: UnionFind, after: UnionFind, x: int, y: int) -> bool {
    forall|i: int|
        0 <= i < before.size() ==> #[trigger] after.root(i) == if before.root(i) == before.root(x) {
            before.root(y)
        } else {
            before.root(i)
        }
}

proof fn lemma_step_each(uf0: UnionFind, before: UnionFind, after: UnionFind, s: Seq<u32>, x: int, y: int)
    requires
        ms_each(uf0, before, s),
        union_effect(before, after, x, y),
        before.size() == uf0.size(),
        in_classes(uf0, s, before.root(x)),
        in_classes(uf0, s, before.root(y)),
    ensures
        ms_each(uf0, after, s),
{
    assert forall|i: int| 0 <= i < uf0.size() implies #[trigger] after.root(i) == uf0.root(i) || (
    in_classes(uf0, s, uf0.root(i)) && in_classes(uf0, s, after.root(i))) by {
        assert(before.root(i) == uf0.root(i) || (in_classes(uf0, s, uf0.root(i)) && in_classes(uf0, s, before.root(i))));
        if before.root(i) == before.root(x) {
            assert(after.root(i) == before.root(y));
        } else {
            assert(after.root(i) == before.root(i));
        }
    }
}

proof fn lemma_step_back(uf0: UnionFind, before: UnionFind, after: UnionFind, s: Seq<u32>, x: int, y: int)
    requires
        ms_each(uf0, before, s),
        ms_back(uf0, before, s),
        union_effect(before, after, x, y),
        before.size() == uf0.size(),
        in_classes(uf0, s, before.root(x)),
        in_classes(uf0, s, before.root(y)),
    ensures
        ms_back(uf0, after, s),
{
    assert forall|a: int, b: int|
        0 <= a < uf0.size() && 0 <= b < uf0.size() && #[trigger] after.root(a) == #[trigger] after.root(
            b,
        ) implies uf0.root(a) == uf0.root(b) || (in_classes(uf0, s, uf0.root(a)) && in_classes(
        uf0,
        s,
        uf0.root(b),
    )) by {
        let ra = before.root(a);
        let rb = before.root(b);
        assert(after.root(a) == if ra == before.root(x) { before.root(y) } else { ra });
        assert(after.root(b) == if rb == before.root(x) { before.root(y) } else { rb });
        if ra == rb {
            assert(before.root(a) == before.root(b));
        } else {
            assert(ra == before.root(x) || ra == before.root(y));
            assert(rb == before.root(x) || rb == before.root(y));
            assert(before.root(a) == uf0.root(a) || (in_classes(uf0, s, uf0.root(a)) && in_classes(uf0, s, before.root(a))));
            assert(before.root(b) == uf0.root(b) || (in_classes(uf0, s, uf0.root(b)) && in_classes(uf0, s, before.root(b))));
        }
    }
}

proof fn lemma_step_mono(uf0: UnionFind, before: UnionFind, after: UnionFind, x: int, y: int)
    requires
        ms_mono(uf0, before),
        union_effect(before, after, x, y),
        before.size() == uf0.size(),
    ensures
        ms_mono(uf0, after),
{
    assert forall|a: int, b: int|
        0 <= a < uf0.size() && 0 <= b < uf0.size() && #[trigger] uf0.root(a) == #[trigger] uf0.root(b)
            implies after.root(a) == after.root(b) by {
        assert(before.root(a) == before.root(b));
        assert(after.root(a) == if before.root(a) == before.root(x) { before.root(y) } else { before.root(a) });
        assert(after.root(b) == if before.root(b) == before.root(x) { before.root(y) } else { before.root(b) });
    }
}

proof fn lemma_step_classes(uf0: UnionFind, before: UnionFind, after: UnionFind, s: Seq<u32>, x: int, y: int)
    requires
        ms_classes(uf0, before, s),
        union_effect(before, after, x, y),
        before.size() == uf0.size(),
        forall|t: int| 0 <= t < s.len() ==> (#[trigger] s[t] as int) < uf0.size(),
        in_classes(uf0, s, before.root(y)),
    ensures
        ms_classes(uf0, after, s),
{
    assert forall|t: int| 0 <= t < s.len() implies in_classes(uf0, s, after.root(#[trigger] s[t] as int)) by {
        let i = s[t] as int;
        assert(in_classes(uf0, s, before.root(i)));
        assert(after.root(i) == if before.root(i) == before.root(x) { before.root(y) } else { before.root(i) });
    }
}

proof fn lemma_step_prefix(before: UnionFind, after: UnionFind, s: Seq<u32>, min_label: u32, k: int)
    requires
        ms_prefix(before, s, min_label, k),
        union_effect(before, after, min_label as int, s[k] as int),
        0 <= k < s.len(),
        forall|t: int| 0 <= t < s.len() ==> (#[trigger] s[t] as int) < before.size(),
        (min_label as int) < before.size(),
    ensures
        ms_prefix(after, s, min_label, k + 1),
{
    let x = min_label as int;
    let y = s[k] as int;
    assert(after.root(x) == before.root(y));
    assert(after.root(y) == before.root(y));
    assert forall|t: int| 0 <= t < k + 1 implies after.root(#[trigger] s[t] as int) == after.root(min_label as int) by {
        let i = s[t] as int;
        if t < k {
            assert(before.root(i) == before.root(x));
            assert(after.root(i) == before.root(y));
        }
    }
}

proof fn lemma_merge_step(uf0: UnionFind, before: UnionFind, after: UnionFind, s: Seq<u32>, kmin: int, k: int, min_label: u32)
    requires
        merge_state(uf0, before, s, min_label, k),
        0 <= kmin < s.len(),
        s[kmin] == min_label,
        0 <= k < s.len(),
        forall|t: int| 0 <= t < s.len() ==> (#[trigger] s[t] as int) < uf0.size(),
        after.wf(),
        after.size() == before.size(),
        union_effect(before, after, min_label as int, s[k] as int),
    ensures
        merge_state(uf0, after, s, min_label, k + 1),
{
    reveal(merge_state);
    let x = min_label as int;
    let y = s[k] as int;
    assert(in_classes(uf0, s, before.root(s[kmin] as int)));
    assert(in_classes(uf0, s, before.root(s[k] as int)));
    lemma_step_each(uf0, before, after, s, x, y);
    lemma_step_back(uf0, before, after, s, x, y);
    lemma_step_mono(uf0, before, after, x, y);
    lemma_step_classes(uf0, before, after, s, x, y);
    lemma_step_prefix(before, after, s, min_label, k);
}

/// Union the set of every label of `nbr` into one set; sets of other labels
/// stay as they are.
fn merge_labels(uf: &mut UnionFind, nbr: &Vec<u32>, min_label: u32, Ghost(kmin): Ghost<int>)
    requires
        old(uf).wf(),
        forall|t: int| 0 <= t < nbr@.len() ==> (#[trigger] nbr@[t] as int) < old(uf).size(),
        0 <= kmin < nbr@.len(),
        nbr@[kmin] == min_label,
    ensures
        final(uf).wf(),
        final(uf).size() == old(uf).size(),
        forall|t: int|
            0 <= t < nbr@.len() ==> final(uf).root(#[trigger] nbr@[t] as int) == final(uf).root(
                min_label as int,
            ),
        forall|a: int, b: int|
            0 <= a < old(uf).size() && 0 <= b < old(uf).size() && #[trigger] old(uf).root(a)
                == #[trigger] old(uf).root(b) ==> final(uf).root(a) == final(uf).root(b),
        forall|a: int, b: int|
            0 <= a < old(uf).size() && 0 <= b < old(uf).size() && #[trigger] final(uf).root(a)
                == #[trigger] final(uf).root(b) ==> old(uf).root(a) == old(uf).root(b) || (
            in_classes(*old(uf), nbr@, old(uf).root(a)) && in_classes(*old(uf), nbr@, old(uf).root(b))),
        forall|i: int|
            0 <= i < old(uf).size() ==> #[trigger] final(uf).root(i) == old(uf).root(i) || (in_classes(
                *old(uf),
                nbr@,
                old(uf).root(i),
            ) && in_classes(*old(uf), nbr@, final(uf).root(i))),
{
    let ghost uf0 = *uf;
    let ghost s = nbr@;
    proof {
        assert forall|t: int| 0 <= t < s.len() implies in_classes(uf0, s, uf0.root(#[trigger] s[t] as int)) by {
            reveal(in_classes);
        }
        reveal(merge_state);
        assert(merge_state(uf0, uf0, s, min_label, 0));
    }
    let mut k: usize = 0;
    while k < nbr.len()
        invariant
            s == nbr@,
            uf0.wf(),
            uf.wf(),
            uf.size() == uf0.size(),
            forall|t: int| 0 <= t < s.len() ==> (#[trigger] s[t] as int) < uf0.size(),
            0 <= kmin < s.len(),
            s[kmin] == min_label,
            0 <= k <= s.len(),
            merge_state(uf0, *uf, s, min_label, k as int),
        decreases s.len() - k,
    {
        let l = nbr[k];
        if l != min_label {
            let ghost before = *uf;
            uf.union(min_label, l);
            proof {
                assert(union_effect(before, *uf, min_label as int, s[k as int] as int));
                lemma_merge_step(uf0, before, *uf, s, kmin, k as int, min_label);
            }
        } else {
            proof {
                reveal(merge_state);
                let ghost u = *uf;
                assert forall|t: int| 0 <= t < k + 1 implies u.root(#[trigger] s[t] as int) == u.root(
                    min_label as int,
                ) by {
                    if t < k {
                        assert(ms_prefix(u, s, min_label, k as int));
                    }
                }
            }
        }
        k += 1;
    }
    proof {
        reveal(merge_state);
    }
}

/// Every cell holding `value` in a `w * h` grid has its label in `1..=n`
/// and, for such cells, equal label roots mean connection.
pub open spec fn labelling_ok(m: BitMatrix, value: bool, labels: Seq<u32>, uf: UnionFind) -> bool {
    let n = (m.spec_width() as int) * (m.spec_height() as int);
    &&& labels.len() == n
    &&& uf.wf()
    &&& uf.size() == n + 1
    &&& forall|i: int| 0 <= i < n ==> #[trigger] labels[i] <= n
    &&& forall|i: int| 0 <= i < n ==> (holds(m, value, i) <==> #[trigger] labels[i] != 0)
    &&& forall|i: int, j: int|
        holds(m, value, i) && holds(m, value, j) ==> (connected(m, value, i, j) <==> uf.root(
            #[trigger] labels[i] as int,
        ) == uf.root(#[trigger] labels[j] as int))
}

/// The state of the labelling pass after the first `idx` cells: labels are
/// below `next`, exactly the processed `value` cells are labelled, label `l`
/// was created at cell `rep[l]`, every labelled cell is connected to its
/// label's cell, labels in one set have connected cells, neighbouring
/// labelled cells have labels in one set, and labels from `next` on are
/// untouched singletons.
#[verifier::opaque]
pub open spec fn label_inv(
    m: BitMatrix,
    value: bool,
    labels: Seq<u32>,
    uf: UnionFind,
    next: int,
    rep: Seq<int>,
    idx: int,
) -> bool {
    let w = m.spec_width() as int;
    let n = w * (m.spec_height() as int);
    &&& labels.len() == n
    &&& uf.wf()
    &&& uf.size() == n + 1
    &&& 1 <= next <= idx + 1
    &&& rep.len() == next
    &&& forall|i: int| 0 <= i < n ==> #[trigger] labels[i] < next
    &&& forall|i: int| 0 <= i < idx ==> (holds(m, value, i) <==> #[trigger] labels[i] != 0)
    &&& forall|i: int| idx <= i < n ==> #[trigger] labels[i] == 0
    &&& forall|l: int| 1 <= l < next ==> 0 <= #[trigger] rep[l] < idx && holds(m, value, rep[l])
    &&& forall|i: int|
        0 <= i < idx && holds(m, value, i) ==> connected(m, value, i, rep[#[trigger] labels[i] as int])
    &&& forall|l1: int, l2: int|
        1 <= l1 < next && 1 <= l2 < next && #[trigger] uf.root(l1) == #[trigger] uf.root(l2)
            ==> connected(m, value, rep[l1], rep[l2])
    &&& forall|i: int, j: int|
        0 <= i < idx && 0 <= j < idx && holds(m, value, i) && holds(m, value, j) && adjacent(w, i, j)
            ==> uf.root(#[trigger] labels[i] as int) == uf.root(#[trigger] labels[j] as int)
    &&& forall|k: int| next <= k <= n ==> #[trigger] uf.root(k) == k
    &&& forall|k: int| 0 <= k < next ==> #[trigger] uf.root(k) < next
}

/// The labels `nbr` are those of the cells `cells`, which are exactly the
/// earlier `value` neighbours of cell `idx`.
pub open spec fn earlier_neighbors_ok(
    m: BitMatrix,
    value: bool,
    labels: Seq<u32>,
    idx: int,
    nbr: Seq<u32>,
    cells: Seq<int>,
) -> bool {
    let w = m.spec_width() as int;
    &&& nbr.len() == cells.len()
    &&& forall|t: int|
        0 <= t < cells.len() ==> 0 <= #[trigger] cells[t] < idx && holds(m, value, cells[t]) && adjacent(
            w,
            idx,
            cells[t],
        ) && nbr[t] == labels[cells[t]]
    &&& forall|j: int|
        0 <= j < idx && holds(m, value, j) && adjacent(w, idx, j) ==> exists|t: int|
            0 <= t < cells.len() && #[trigger] cells[t] == j
}

proof fn lemma_inv_skip(m: BitMatrix, value: bool, labels: Seq<u32>, uf: UnionFind, next: int, rep: Seq<int>, idx: int)
    requires
        label_inv(m, value, labels, uf, next, rep, idx),
        0 <= idx < (m.spec_width() as int) * (m.spec_height() as int),
        !holds(m, value, idx),
    ensures
        label_inv(m, value, labels, uf, next, rep, idx + 1),
{
    reveal(label_inv);
}

proof fn lemma_inv_fresh(m: BitMatrix, value: bool, labels: Seq<u32>, uf: UnionFind, next: int, rep: Seq<int>, idx: int)
    requires
        label_inv(m, value, labels, uf, next, rep, idx),
        0 <= idx < (m.spec_width() as int) * (m.spec_height() as int),
        holds(m, value, idx),
        forall|j: int| 0 <= j < idx && holds(m, value, j) ==> !adjacent(m.spec_width() as int, idx, j),
    ensures
        label_inv(m, value, labels.update(idx, next as u32), uf, next + 1, rep.push(idx), idx + 1),
{
    reveal(label_inv);
    let w = m.spec_width() as int;
    let n = w * (m.spec_height() as int);
    let l2s = labels.update(idx, next as u32);
    let rep2 = rep.push(idx);
    lemma_connected_refl(m, value, idx);
    assert forall|i: int| 0 <= i < idx + 1 && holds(m, value, i) implies connected(
        m,
        value,
        i,
        rep2[#[trigger] l2s[i] as int],
    ) by {
        if i < idx {
            assert(l2s[i] == labels[i]);
        }
    }
    assert forall|l1: int, l2: int|
        1 <= l1 < next + 1 && 1 <= l2 < next + 1 && #[trigger] uf.root(l1) == #[trigger] uf.root(l2)
            implies connected(m, value, rep2[l1], rep2[l2]) by {
        if l1 < next && l2 < next {
            assert(rep2[l1] == rep[l1] && rep2[l2] == rep[l2]);
        } else if l1 == next && l2 < next {
            assert(uf.root(l1) == l1);
        } else if l2 == next && l1 < next {
            assert(uf.root(l2) == l2);
        }
    }
    assert forall|i: int, j: int|
        0 <= i < idx + 1 && 0 <= j < idx + 1 && holds(m, value, i) && holds(m, value, j) && adjacent(
            w,
            i,
            j,
        ) implies uf.root(#[trigger] l2s[i] as int) == uf.root(#[trigger] l2s[j] as int) by {
        if i == idx && j < idx {
            assert(!adjacent(w, idx, j));
        } else if j == idx && i < idx {
            assert(!adjacent(w, idx, i));
        } else if i < idx && j < idx {
            assert(l2s[i] == labels[i] && l2s[j] == labels[j]);
        }
    }
}

proof fn lemma_inv_merge(
    m: BitMatrix,
    value: bool,
    labels: Seq<u32>,
    uf0: UnionFind,
    uf1: UnionFind,
    next: int,
    rep: Seq<int>,
    idx: int,
    nbr: Seq<u32>,
    cells: Seq<int>,
    kmin: int,
)
    requires
        label_inv(m, value, labels, uf0, next, rep, idx),
        0 <= idx < (m.spec_width() as int) * (m.spec_height() as int),
        holds(m, value, idx),
        earlier_neighbors_ok(m, value, labels, idx, nbr, cells),
        0 <= kmin < nbr.len(),
        uf1.wf(),
        uf1.size() == uf0.size(),
        forall|t: int|
            0 <= t < nbr.len() ==> uf1.root(#[trigger] nbr[t] as int) == uf1.root(nbr[kmin] as int),
        forall|a: int, b: int|
            0 <= a < uf0.size() && 0 <= b < uf0.size() && #[trigger] uf0.root(a) == #[trigger] uf0.root(b)
                ==> uf1.root(a) == uf1.root(b),
        forall|a: int, b: int|
            0 <= a < uf0.size() && 0 <= b < uf0.size() && #[trigger] uf1.root(a) == #[trigger] uf1.root(b)
                ==> uf0.root(a) == uf0.root(b) || (in_classes(uf0, nbr, uf0.root(a)) && in_classes(
                uf0,
                nbr,
                uf0.root(b),
            )),
        forall|i: int|
            0 <= i < uf0.size() ==> #[trigger] uf1.root(i) == uf0.root(i) || (in_classes(uf0, nbr, uf0.root(i))
                && in_classes(uf0, nbr, uf1.root(i))),
    ensures
        label_inv(m, value, labels.update(idx, nbr[kmin]), uf1, next, rep, idx + 1),
{
    reveal(label_inv);
    let w = m.spec_width() as int;
    let n = w * (m.spec_height() as int);
    let min = nbr[kmin];
    let l2s = labels.update(idx, min);
    let c0 = cells[kmin];
    assert(0 <= c0 < idx && holds(m, value, c0) && adjacent(w, idx, c0) && min == labels[c0]);
    assert(labels[c0] != 0);
    lemma_adjacent_connected(m, value, idx, c0);
    // every label in an original set of a neighbour is connected to cell idx
    assert forall|l: int| 1 <= l < next && in_classes(uf0, nbr, uf0.root(l)) implies connected(
        m,
        value,
        rep[l],
        idx,
    ) by {
        reveal(in_classes);
        let t = choose|t: int| 0 <= t < nbr.len() && uf0.root(l) == uf0.root(#[trigger] nbr[t] as int);
        let c = cells[t];
        assert(0 <= c < idx && holds(m, value, c) && adjacent(w, idx, c) && nbr[t] == labels[c]);
        assert(labels[c] != 0);
        assert(connected(m, value, rep[l], rep[labels[c] as int]));
        assert(connected(m, value, c, rep[labels[c] as int]));
        lemma_connected_sym(m, value, c, rep[labels[c] as int]);
        lemma_connected_trans(m, value, rep[l], rep[labels[c] as int], c);
        lemma_adjacent_connected(m, value, c, idx);
        lemma_connected_trans(m, value, rep[l], c, idx);
    }
    assert forall|i: int| 0 <= i < idx + 1 && holds(m, value, i) implies connected(
        m,
        value,
        i,
        rep[#[trigger] l2s[i] as int],
    ) by {
        if i < idx {
            assert(l2s[i] == labels[i]);
        } else {
            assert(connected(m, value, c0, rep[labels[c0] as int]));
            lemma_connected_trans(m, value, idx, c0, rep[min as int]);
        }
    }
    assert forall|l1: int, l2: int|
        1 <= l1 < next && 1 <= l2 < next && #[trigger] uf1.root(l1) == #[trigger] uf1.root(l2) implies connected(
        m,
        value,
        rep[l1],
        rep[l2],
    ) by {
        if uf0.root(l1) == uf0.root(l2) {
        } else {
            assert(in_classes(uf0, nbr, uf0.root(l1)) && in_classes(uf0, nbr, uf0.root(l2)));
            assert(connected(m, value, rep[l1], idx));
            assert(connected(m, value, rep[l2], idx));
            lemma_connected_sym(m, value, rep[l2], idx);
            lemma_connected_trans(m, value, rep[l1], idx, rep[l2]);
        }
    }
    assert forall|i: int, j: int|
        0 <= i < idx + 1 && 0 <= j < idx + 1 && holds(m, value, i) && holds(m, value, j) && adjacent(
            w,
            i,
            j,
        ) implies uf1.root(#[trigger] l2s[i] as int) == uf1.root(#[trigger] l2s[j] as int) by {
        if i < idx && j < idx {
            assert(l2s[i] == labels[i] && l2s[j] == labels[j]);
            assert(uf0.root(labels[i] as int) == uf0.root(labels[j] as int));
        } else if i == idx && j < idx {
            let t = choose|t: int| 0 <= t < cells.len() && #[trigger] cells[t] == j;
            assert(nbr[t] == labels[j]);
            assert(uf1.root(nbr[t] as int) == uf1.root(min as int));
        } else if j == idx && i < idx {
            assert(adjacent(w, idx, i));
            let t = choose|t: int| 0 <= t < cells.len() && #[trigger] cells[t] == i;
            assert(nbr[t] == labels[i]);
            assert(uf1.root(nbr[t] as int) == uf1.root(min as int));
        }
    }
    assert forall|k: int| next <= k <= n implies #[trigger] uf1.root(k) == k by {
        assert(uf0.root(k) == k);
        if uf1.root(k) != uf0.root(k) {
            reveal(in_classes);
            assert(in_classes(uf0, nbr, uf0.root(k)));
            let t = choose|t: int| 0 <= t < nbr.len() && uf0.root(k) == uf0.root(#[trigger] nbr[t] as int);
            assert(nbr[t] == labels[cells[t]]);
            assert(uf0.root(nbr[t] as int) < next);
        }
    }
    assert forall|k: int| 0 <= k < next implies #[trigger] uf1.root(k) < next by {
        if uf1.root(k) != uf0.root(k) {
            reveal(in_classes);
            assert(in_classes(uf0, nbr, uf1.root(k)));
            let t = choose|t: int| 0 <= t < nbr.len() && uf1.root(k) == uf0.root(#[trigger] nbr[t] as int);
            assert(nbr[t] == labels[cells[t]]);
            assert(uf0.root(nbr[t] as int) < next);
        }
    }
}

proof fn lemma_inv_done(m: BitMatrix, value: bool, labels: Seq<u32>, uf: UnionFind, next: int, rep: Seq<int>)
    requires
        label_inv(m, value, labels, uf, next, rep, (m.spec_width() as int) * (m.spec_height() as int)),
    ensures
        labelling_ok(m, value, labels, uf),
{
    reveal(label_inv);
    let w = m.spec_width() as int;
    let n = w * (m.spec_height() as int);
    assert forall|i: int, j: int| holds(m, value, i) && holds(m, value, j) implies (connected(
        m,
        value,
        i,
        j,
    ) <==> uf.root(#[trigger] labels[i] as int) == uf.root(#[trigger] labels[j] as int)) by {
        let li = labels[i] as int;
        let lj = labels[j] as int;
        if uf.root(li) == uf.root(lj) {
            assert(connected(m, value, i, rep[li]));
            assert(connected(m, value, j, rep[lj]));
            assert(connected(m, value, rep[li], rep[lj]));
            lemma_connected_sym(m, value, j, rep[lj]);
            lemma_connected_trans(m, value, i, rep[li], rep[lj]);
            lemma_connected_trans(m, value, i, rep[lj], j);
        }
        if connected(m, value, i, j) {
            let p = choose|p: Seq<int>| #[trigger] is_path(m, value, p) && p[0] == i && p.last() == j;
            let f = |c: int| uf.root(labels[c] as int);
            assert forall|a: int, b: int|
                holds(m, value, a) && holds(m, value, b) && adjacent(w, a, b) implies #[trigger] f(a)
                == #[trigger] f(b) by {
                assert(uf.root(labels[a] as int) == uf.root(labels[b] as int));
            }
            lemma_constant_on_paths(m, value, f, p);
        }
    }
}

/// The earlier `value` neighbours of cell `(x, y)` (left, upper, upper-left,
/// upper-right, in that order) and their labels.
#[verifier::spinoff_prover]
fn earlier_neighbors(
    matrix: &BitMatrix,
    value: bool,
    labels: &Vec<u32>,
    idx: usize,
    x: usize,
    y: usize,
) -> (res: (Vec<u32>, Ghost<Seq<int>>))
    requires
        matrix.wf(),
        x < matrix.spec_width(),
        y < matrix.spec_height(),
        idx == y * matrix.spec_width() + x,
        labels@.len() == matrix.spec_width() * matrix.spec_height(),
    ensures
        earlier_neighbors_ok(*matrix, value, labels@, idx as int, res.0@, res.1@),
{
    let width = matrix.width();
    let ghost w = width as int;
    let ghost h = matrix.spec_height() as int;
    let ghost m = *matrix;
    let mut nbr: Vec<u32> = Vec::new();
    let ghost mut cells: Seq<int> = Seq::empty();
    let ghost mut p1: int = -1;
    let ghost mut p2: int = -1;
    let ghost mut p3: int = -1;
    let ghost mut p4: int = -1;
    proof {
        lemma_flat_cell(w, x as int, y as int);
        crate::models::matrix::lemma_cell_index(w, h, x as int, y as int);
    }
    if x > 0 && matrix.get(x - 1, y) == value {
        proof {
            lemma_flat_cell(w, x - 1, y as int);
        }
        nbr.push(labels[idx - 1]);
        proof {
            p1 = cells.len() as int;
            cells = cells.push(idx - 1);
        }
    }
    if y > 0 && matrix.get(x, y - 1) == value {
        proof {
            lemma_flat_cell(w, x as int, y - 1);
            assert((y - 1) * w + x == idx - width) by (nonlinear_arith)
                requires
                    idx == y * width + x,
                    w == width,
            ;
        }
        nbr.push(labels[idx - width]);
        proof {
            p2 = cells.len() as int;
            cells = cells.push(idx - width);
        }
    }
    if x > 0 && y > 0 && matrix.get(x - 1, y - 1) == value {
        proof {
            lemma_flat_cell(w, x - 1, y - 1);
            assert((y - 1) * w + x - 1 == idx - width - 1) by (nonlinear_arith)
                requires
                    idx == y * width + x,
                    w == width,
            ;
        }
        nbr.push(labels[idx - width - 1]);
        proof {
            p3 = cells.len() as int;
            cells = cells.push(idx - width - 1);
        }
    }
    if x + 1 < width && y > 0 && matrix.get(x + 1, y - 1) == value {
        proof {
            lemma_flat_cell(w, x + 1, y - 1);
            assert((y - 1) * w + x + 1 == idx - width + 1) by (nonlinear_arith)
                requires
                    idx == y * width + x,
                    w == width,
            ;
        }
        nbr.push(labels[idx - width + 1]);
        proof {
            p4 = cells.len() as int;
            cells = cells.push(idx - width + 1);
        }
    }
    proof {
        assert forall|j: int|
            0 <= j < idx && holds(m, value, j) && adjacent(w, idx as int, j) implies exists|t: int|
            0 <= t < cells.len() && #[trigger] cells[t] == j by {
            lemma_earlier_neighbor(w, x as int, y as int, j);
            if x > 0 && j == idx - 1 {
                lemma_flat_cell(w, x - 1, y as int);
                assert(cells[p1] == j);
            } else if y > 0 && j == (y - 1) * w + x {
                lemma_flat_cell(w, x as int, y - 1);
                assert((y - 1) * w + x == idx - width) by (nonlinear_arith)
                    requires
                        idx == y * width + x,
                        w == width,
                ;
                assert(cells[p2] == j);
            } else if x > 0 && y > 0 && j == (y - 1) * w + x - 1 {
                lemma_flat_cell(w, x - 1, y - 1);
                assert((y - 1) * w + x - 1 == idx - width - 1) by (nonlinear_arith)
                    requires
                        idx == y * width + x,
                        w == width,
                ;
                assert(cells[p3] == j);
            } else {
                lemma_flat_cell(w, x + 1, y - 1);
                assert((y - 1) * w + x + 1 == idx - width + 1) by (nonlinear_arith)
                    requires
                        idx == y * width + x,
                        w == width,
                ;
                assert(cells[p4] == j);
            }
        }
    }
    (nbr, Ghost(cells))
}

/// First pass: give every `value` cell a label, merging the labels of
/// neighbouring cells in the union-find forest.
fn label_cells(matrix: &BitMatrix, value: bool) -> (res: (Vec<u32>, UnionFind))
    requires
        matrix.wf(),
        matrix.spec_width() * matrix.spec_height() < u32::MAX,
    ensures
        labelling_ok(*matrix, value, res.0@, res.1),
{
    let width = matrix.width();
    let height = matrix.height();
    let n = width * height;
    let ghost w = width as int;
    let ghost m = *matrix;
    let mut labels: Vec<u32> = vec![0u32; n];
    let mut next_label: u32 = 1;
    let mut uf = UnionFind::new(n + 1);
    let ghost mut rep: Seq<int> = seq![0int];
    proof {
        assert forall|i: int| 0 <= i < n implies #[trigger] labels@[i] == 0u32 by {
            assert(cloned::<u32>(0u32, labels@[i]));
        }
        if n > 0 {
            assert(width > 0 && height > 0) by (nonlinear_arith)
                requires
                    n == width * height,
                    n > 0,
            ;
        }
        reveal(label_inv);
        assert(label_inv(m, value, labels@, uf, 1, rep, 0));
    }
    let mut idx: usize = 0;
    let mut x: usize = 0;
    let mut y: usize = 0;
    while idx < n
        invariant
            matrix.wf(),
            m == *matrix,
            w == width,
            width == matrix.spec_width(),
            height == matrix.spec_height(),
            n == width * height,
            n < u32::MAX,
            idx <= n,
            idx < n ==> (w > 0 && x < width && y < height && idx == y * width + x),
            next_label <= idx + 1,
            labels@.len() == n,
            uf.wf(),
            uf.size() == n + 1,
            label_inv(m, value, labels@, uf, next_label as int, rep, idx as int),
        decreases n - idx,
    {
        proof {
            lemma_flat_cell(w, x as int, y as int);
            crate::models::matrix::lemma_cell_index(w, height as int, x as int, y as int);
        }
        if matrix.get(x, y) == value {
            let ghost uf0 = uf;
            let ghost labels0 = labels@;
            let (nbr, Ghost(cells)) = earlier_neighbors(matrix, value, &labels, idx, x, y);
            if nbr.len() == 0 {
                proof {
                    assert forall|j: int| 0 <= j < idx && holds(m, value, j) implies !adjacent(w, idx as int, j) by {
                        if adjacent(w, idx as int, j) {
                            let t = choose|t: int| 0 <= t < cells.len() && #[trigger] cells[t] == j;
                        }
                    }
                    lemma_inv_fresh(m, value, labels0, uf0, next_label as int, rep, idx as int);
                    rep = rep.push(idx as int);
                }
                labels.set(idx, next_label);
                next_label = next_label + 1;
            } else {
                let mut min_label = nbr[0];
                let ghost mut kmin: int = 0;
                let mut k: usize = 1;
                while k < nbr.len()
                    invariant
                        1 <= k <= nbr@.len(),
                        0 <= kmin < nbr@.len(),
                        min_label == nbr@[kmin],
                    decreases nbr@.len() - k,
                {
                    if nbr[k] < min_label {
                        min_label = nbr[k];
                        proof {
                            kmin = k as int;
                        }
                    }
                    k = k + 1;
                }
                proof {
                    reveal(label_inv);
                    assert forall|t: int| 0 <= t < nbr@.len() implies (#[trigger] nbr@[t] as int) < uf.size() by {
                        assert(nbr@[t] == labels0[cells[t]]);
                    }
                }
                labels.set(idx, min_label);
                merge_labels(&mut uf, &nbr, min_label, Ghost(kmin));
                proof {
                    lemma_inv_merge(m, value, labels0, uf0, uf, next_label as int, rep, idx as int, nbr@, cells, kmin);
                }
            }
        } else {
            proof {
                lemma_inv_skip(m, value, labels@, uf, next_label as int, rep, idx as int);
            }
        }
        idx += 1;
        x += 1;
        if x == width {
            x = 0;
            y += 1;
        }
        proof {
            if idx < n {
                if x == 0 {
                    assert(idx == y * width + x) by (nonlinear_arith)
                        requires
                            idx == (y - 1) * width + width,
                            x == 0,
                    ;
                    if y >= height {
                        assert(idx >= height * width) by (nonlinear_arith)
                            requires
                                idx == y * width,
                                y >= height,
                                width >= 0,
                        ;
                        assert(height * width == n) by (nonlinear_arith)
                            requires
                                n == width * height,
                        ;
                    }
                }
            }
        }
    }
    proof {
        lemma_inv_done(m, value, labels@, uf, next_label as int, rep);
    }
    (labels, uf)
}

/// Membership in the set whose representative is `r`.
pub open spec fn root_member(uf: UnionFind, labels: Seq<u32>, r: int) -> spec_fn(int) -> bool {
    |j: int| uf.root(labels[j] as int) == r
}

/// Two cells whose labels share a representative.
pub open spec fn same_root(uf: UnionFind, labels: Seq<u32>) -> spec_fn(int, int) -> bool {
    |i: int, j: int| uf.root(labels[i] as int) == uf.root(labels[j] as int)
}

/// Stepping to the next cell of a raster scan keeps `(x, y)` the coordinates
/// of `idx`.
proof fn lemma_advance(w: int, h: int, n: int, idx: int, x: int, y: int, x2: int, y2: int)
    requires
        n == w * h,
        w > 0,
        0 <= x < w,
        0 <= y < h,
        idx == y * w + x,
        x + 1 == w ==> x2 == 0 && y2 == y + 1,
        x + 1 != w ==> x2 == x + 1 && y2 == y,
    ensures
        idx + 1 < n ==> (x2 < w && y2 < h && idx + 1 == y2 * w + x2),
{
    if x + 1 == w {
        assert(idx + 1 == (y + 1) * w) by (nonlinear_arith)
            requires
                idx == y * w + x,
                x + 1 == w,
        ;
        if y + 1 >= h {
            assert((y + 1) * w >= h * w) by (nonlinear_arith)
                requires
                    y + 1 >= h,
                    w > 0,
            ;
            assert(h * w == n) by (nonlinear_arith)
                requires
                    n == w * h,
            ;
        }
    }
}

/// Find the connected regions of `value` cells (8-connectivity) and return
/// their bounding boxes, one per region, sorted by top edge, then left edge,
/// then bottom edge, then right edge.
pub fn find_regions(matrix: &BitMatrix, value: bool) -> (regions: Vec<BBox>)
    requires
        matrix.wf(),
        matrix.spec_width() * matrix.spec_height() < u32::MAX,
    ensures
        regions@.to_multiset() == region_boxes(*matrix, value).to_multiset(),
        bboxes_sorted(regions@),
{
    let width = matrix.width();
    let height = matrix.height();
    let n = width * height;
    let ghost w = width as int;
    let ghost m = *matrix;
    let (labels, mut uf) = label_cells(matrix, value);
    let ghost uf0 = uf;
    let ghost same = same_root(uf0, labels@);
    proof {
        if n > 0 {
            assert(width > 0 && height > 0) by (nonlinear_arith)
                requires
                    n == width * height,
                    n > 0,
            ;
        }
    }

    // bounding box of every set, indexed by its representative
    let mut bboxes: Vec<Option<BBox>> = Vec::new();
    let mut k: usize = 0;
    while k < n + 1
        invariant
            k <= n + 1,
            n < u32::MAX,
            bboxes@.len() == k,
            forall|j: int| 0 <= j < k ==> #[trigger] bboxes@[j] is None,
        decreases n + 1 - k,
    {
        bboxes.push(None);
        k = k + 1;
    }
    let mut idx: usize = 0;
    let mut x: usize = 0;
    let mut y: usize = 0;
    while idx < n
        invariant
            matrix.wf(),
            m == *matrix,
            w == width,
            width == matrix.spec_width(),
            height == matrix.spec_height(),
            n == width * height,
            n < u32::MAX,
            idx <= n,
            idx < n ==> (w > 0 && x < width && y < height && idx == y * width + x),
            labelling_ok(m, value, labels@, uf0),
            uf.wf(),
            uf.size() == n + 1,
            forall|i: int| 0 <= i <= n ==> #[trigger] uf.root(i) == uf0.root(i),
            bboxes@.len() == n + 1,
            forall|r: int|
                0 <= r <= n ==> #[trigger] bboxes@[r] == box_of(
                    m,
                    value,
                    root_member(uf0, labels@, r),
                    idx as int,
                ),
        decreases n - idx,
    {
        proof {
            lemma_flat_cell(w, x as int, y as int);
        }
        let label = labels[idx];
        if label != 0 {
            let root = uf.find(label);
            proof {
                uf.lemma_root_is_root(label as int);
            }
            let entry = match bboxes[root as usize] {
                Some(b) => bbox_extend(b, x, y),
                None => (x, y, x, y),
            };
            let ghost before = bboxes@;
            bboxes.set(root as usize, Some(entry));
            proof {
                assert forall|r: int| 0 <= r <= n implies #[trigger] bboxes@[r] == box_of(
                    m,
                    value,
                    root_member(uf0, labels@, r),
                    idx + 1,
                ) by {
                    assert(before[r] == box_of(m, value, root_member(uf0, labels@, r), idx as int));
                }
            }
        } else {
            proof {
                assert forall|r: int| 0 <= r <= n implies #[trigger] bboxes@[r] == box_of(
                    m,
                    value,
                    root_member(uf0, labels@, r),
                    idx + 1,
                ) by {
                    assert(bboxes@[r] == box_of(m, value, root_member(uf0, labels@, r), idx as int));
                }
            }
        }
        let ghost (ox, oy, oi) = (x as int, y as int, idx as int);
        idx += 1;
        x += 1;
        if x == width {
            x = 0;
            y += 1;
        }
        proof {
            lemma_advance(w, height as int, n as int, oi, ox, oy, x as int, y as int);
        }
    }

    // one box per set, in the raster order of each set's first cell
    let mut emitted: Vec<bool> = vec![false; n + 1];
    let mut regions: Vec<BBox> = Vec::new();
    proof {
        assert forall|r: int| 0 <= r <= n implies #[trigger] emitted@[r] == false by {
            assert(cloned::<bool>(false, emitted@[r]));
        }
    }
    let mut idx: usize = 0;
    while idx < n
        invariant
            matrix.wf(),
            m == *matrix,
            width == matrix.spec_width(),
            height == matrix.spec_height(),
            n == width * height,
            n < u32::MAX,
            idx <= n,
            labelling_ok(m, value, labels@, uf0),
            uf.wf(),
            uf.size() == n + 1,
            forall|i: int| 0 <= i <= n ==> #[trigger] uf.root(i) == uf0.root(i),
            bboxes@.len() == n + 1,
            forall|r: int|
                0 <= r <= n ==> #[trigger] bboxes@[r] == box_of(
                    m,
                    value,
                    root_member(uf0, labels@, r),
                    n as int,
                ),
            emitted@.len() == n + 1,
            forall|r: int|
                0 <= r <= n ==> (#[trigger] emitted@[r] <==> exists|j: int|
                    0 <= j < idx && holds(m, value, j) && uf0.root(#[trigger] labels@[j] as int) == r),
            same == same_root(uf0, labels@),
            regions@ == class_boxes(m, value, same, idx as int),
        decreases n - idx,
    {
        let label = labels[idx];
        if label != 0 {
            let root = uf.find(label);
            proof {
                uf.lemma_root_is_root(label as int);
                assert(holds(m, value, idx as int));
            }
            let ghost r = root as int;
            if !emitted[root as usize] {
                proof {
                    assert(r == uf0.root(labels@[idx as int] as int));
                    assert forall|j: int| 0 <= j < idx && holds(m, value, j) implies !#[trigger] same(idx as int, j) by {
                        assert(same(idx as int, j) == (uf0.root(labels@[idx as int] as int) == uf0.root(labels@[j] as int)));
                        if same(idx as int, j) {
                            assert(uf0.root(labels@[j] as int) == r);
                        }
                    }
                    assert forall|j: int| 0 <= j < n && holds(m, value, j) implies root_member(uf0, labels@, r)(j) == (|j: int| same(idx as int, j))(j) by {
                        assert(same(idx as int, j) == (uf0.root(labels@[idx as int] as int) == uf0.root(labels@[j] as int)));
                    }
                    assert(is_first(m, value, same, idx as int));
                    assert(bboxes@[r] == box_of(m, value, root_member(uf0, labels@, r), n as int));
                    lemma_box_of_agree(
                        m,
                        value,
                        root_member(uf0, labels@, r),
                        |j: int| same(idx as int, j),
                        n as int,
                    );
                    lemma_box_of_some(m, value, root_member(uf0, labels@, r), idx as int, n as int);
                }
                let b = match bboxes[root as usize] {
                    Some(b) => b,
                    None => (0, 0, 0, 0),
                };
                regions.push(b);
                emitted.set(root as usize, true);
            } else {
                proof {
                    let j = choose|j: int|
                        0 <= j < idx && holds(m, value, j) && uf0.root(#[trigger] labels@[j] as int) == r;
                    assert(same(idx as int, j));
                }
            }
            proof {
                assert forall|rr: int| 0 <= rr <= n implies (#[trigger] emitted@[rr] <==> exists|j: int|
                    0 <= j < idx + 1 && holds(m, value, j) && uf0.root(#[trigger] labels@[j] as int) == rr) by {
                    if rr == r {
                        assert(uf0.root(labels@[idx as int] as int) == rr);
                    } else {
                        if exists|j: int|
                            0 <= j < idx + 1 && holds(m, value, j) && uf0.root(#[trigger] labels@[j] as int) == rr {
                            let j = choose|j: int|
                                0 <= j < idx + 1 && holds(m, value, j) && uf0.root(#[trigger] labels@[j] as int) == rr;
                            assert(j != idx);
                        }
                    }
                }
            }
        } else {
            proof {
                assert(!holds(m, value, idx as int));
                assert forall|rr: int| 0 <= rr <= n implies (#[trigger] emitted@[rr] <==> exists|j: int|
                    0 <= j < idx + 1 && holds(m, value, j) && uf0.root(#[trigger] labels@[j] as int) == rr) by {
                    if exists|j: int|
                        0 <= j < idx + 1 && holds(m, value, j) && uf0.root(#[trigger] labels@[j] as int) == rr {
                        let j = choose|j: int|
                            0 <= j < idx + 1 && holds(m, value, j) && uf0.root(#[trigger] labels@[j] as int) == rr;
                        assert(j != idx);
                    }
                }
            }
        }
        idx += 1;
    }
    proof {
        assert forall|i: int, j: int| holds(m, value, i) && holds(m, value, j) implies same(i, j)
            == connected_rel(m, value)(i, j) by {
            assert(0 <= i < n && 0 <= j < n);
        }
        lemma_class_boxes_agree(m, value, same, connected_rel(m, value), n as int);
    }
    let ghost unsorted = regions@;
    sort_bboxes(&mut regions);
    regions
}

/// Find connected dark regions and return their bounding boxes in raster order.
pub fn find_black_regions(matrix: &BitMatrix) -> (regions: Vec<BBox>)
    requires
        matrix.wf(),
        matrix.spec_width() * matrix.spec_height() < u32::MAX,
    ensures
        regions@.to_multiset() == region_boxes(*matrix, true).to_multiset(),
        bboxes_sorted(regions@),
{
    find_regions(matrix, true)
}

/// Find connected light regions and return their bounding boxes in raster order.
pub fn find_white_regions(matrix: &BitMatrix) -> (regions: Vec<BBox>)
    requires
        matrix.wf(),
        matrix.spec_width() * matrix.spec_height() < u32::MAX,
    ensures
        regions@.to_multiset() == region_boxes(*matrix, false).to_multiset(),
        bboxes_sorted(regions@),
{
    find_regions(matrix, false)
}

} // verus!
