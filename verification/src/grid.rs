//! The layout of the g-g-g-v envelope tables: a rectilinear `(v, â_x, g_normal)` grid stored
//! row-major, the per-`(v, g_normal)` capability tables, the outward march along an `â_x` fibre,
//! and the Decision #31 sensitivity sub-sampling (every second `â_x` node plus the last).
use vstd::prelude::*;

verus! {

/// Whether grid index `i` of `n` is a sensitivity sample node: every second index, plus the last.
pub open spec fn spec_sens_sampled(i: int, n: int) -> bool {
    i % 2 == 0 || i + 1 == n
}

/// Whether grid index `i` of `n` is a sensitivity sample node: every 2nd index, plus the last (so
/// the fill always interpolates between two samples, never extrapolates past the edge).
pub fn sens_sampled(i: usize, n: usize) -> (r: bool)
    ensures
        r == spec_sens_sampled(i as int, n as int),
{
    i % 2 == 0 || (i < usize::MAX && i + 1 == n)
}

/// The sampled neighbours `(lo, hi)` that bracket node `iax` of an `nax`-node fibre: `lo` is the
/// largest sampled index below `iax` (0 if none) and `hi` the smallest sampled index above it
/// (`nax − 1` if none).
pub fn sens_bracket(iax: usize, nax: usize) -> (r: (usize, usize))
    requires
        iax < nax,
    ensures
        r.0 < nax && r.1 < nax,
        (exists|k: int| 0 <= k < iax && spec_sens_sampled(k, nax as int)) ==> {
            &&& r.0 < iax && spec_sens_sampled(r.0 as int, nax as int)
            &&& forall|k: int| r.0 < k < iax ==> !spec_sens_sampled(k, nax as int)
        },
        !(exists|k: int| 0 <= k < iax && spec_sens_sampled(k, nax as int)) ==> r.0 == 0,
        (exists|k: int| iax < k < nax && spec_sens_sampled(k, nax as int)) ==> {
            &&& iax < r.1 && spec_sens_sampled(r.1 as int, nax as int)
            &&& forall|k: int| iax < k < r.1 ==> !spec_sens_sampled(k, nax as int)
        },
        !(exists|k: int| iax < k < nax && spec_sens_sampled(k, nax as int)) ==> r.1 == nax - 1,
{
    // Largest sampled index below `iax`.
    let mut lo: usize = 0;
    let mut found_lo = false;
    let mut k: usize = iax;
    while k > 0 && !found_lo
        invariant
            k <= iax < nax,
            found_lo ==> lo < iax && spec_sens_sampled(lo as int, nax as int)
                && forall|j: int| lo < j < iax ==> !spec_sens_sampled(j, nax as int),
            !found_lo ==> lo == 0 && forall|j: int| k <= j < iax ==> !spec_sens_sampled(j, nax as int),
        decreases k,
    {
        k = k - 1;
        if sens_sampled(k, nax) {
            lo = k;
            found_lo = true;
        }
    }
    // Smallest sampled index above `iax`.
    let mut hi: usize = nax - 1;
    let mut found_hi = false;
    let mut m: usize = iax + 1;
    while m < nax && !found_hi
        invariant
            iax < m <= nax,
            found_hi ==> iax < hi < nax && spec_sens_sampled(hi as int, nax as int)
                && forall|j: int| iax < j < hi ==> !spec_sens_sampled(j, nax as int),
            !found_hi ==> hi == nax - 1 && forall|j: int| iax < j < m ==> !spec_sens_sampled(j, nax as int),
        decreases nax - m,
    {
        if sens_sampled(m, nax) {
            hi = m;
            found_hi = true;
        }
        m = m + 1;
    }
    (lo, hi)
}

/// The first and last nodes of a fibre are always sampled.
pub proof fn lemma_fibre_ends_sampled(n: int)
    requires
        n >= 1,
    ensures
        spec_sens_sampled(0, n),
        spec_sens_sampled(n - 1, n),
{
}

/// An unsampled node is interior and both its neighbours are sampled, so the fill interpolates
/// between the two adjacent samples and never extrapolates past the edge.
pub proof fn lemma_unsampled_between_samples(i: int, n: int)
    requires
        0 <= i < n,
        !spec_sens_sampled(i, n),
    ensures
        1 <= i && i + 1 < n,
        spec_sens_sampled(i - 1, n),
        spec_sens_sampled(i + 1, n),
{
}

/// The dimensions of the envelope grid: `v` nodes, `â_x` nodes, `g_normal` nodes.
#[derive(Clone, Copy, Debug, PartialEq, Eq, Structural)]
pub struct EnvelopeGrid {
    /// Number of `v` nodes (at least 2).
    pub nv: usize,
    /// Number of `â_x` nodes (at least 3).
    pub nax: usize,
    /// Number of `g_normal` nodes (at least 2).
    pub ngn: usize,
}

/// The larger of two counts.
pub open spec fn at_least(n: int, m: int) -> int {
    if n < m { m } else { n }
}

/// The flat row-major index of node `(iv, iax, ign)`.
pub open spec fn spec_node(nax: int, ngn: int, iv: int, iax: int, ign: int) -> int {
    (iv * nax + iax) * ngn + ign
}

proof fn lemma_node_bound(nv: int, nax: int, ngn: int, iv: int, iax: int, ign: int)
    by (nonlinear_arith)
    requires
        0 <= iv < nv,
        0 <= iax < nax,
        0 <= ign < ngn,
    ensures
        0 <= spec_node(nax, ngn, iv, iax, ign) < nv * nax * ngn,
        0 <= iv * nax + iax < nv * nax,
{
    assert(iv * nax + iax < (iv + 1) * nax);
    assert((iv + 1) * nax <= nv * nax);
    assert((iv * nax + iax) * ngn + ign < (iv * nax + iax + 1) * ngn);
    assert((iv * nax + iax + 1) * ngn <= (nv * nax) * ngn);
}

proof fn lemma_mixed_radix_unique(a: int, x: int, b: int, y: int, m: int)
    by (nonlinear_arith)
    requires
        0 <= x < m,
        0 <= y < m,
        a >= 0,
        b >= 0,
        a * m + x == b * m + y,
    ensures
        a == b,
        x == y,
{
    if a < b {
        assert((b - a) * m >= m);
        assert(a * m + x < b * m + y);
    } else if b < a {
        assert((a - b) * m >= m);
        assert(b * m + y < a * m + x);
    }
}

/// Distinct grid nodes have distinct flat indices: the row-major layout stores every node in its
/// own slot.
pub proof fn lemma_node_index_injective(g: EnvelopeGrid, a: (int, int, int), b: (int, int, int))
    requires
        0 <= a.0 < g.nv && 0 <= a.1 < g.nax && 0 <= a.2 < g.ngn,
        0 <= b.0 < g.nv && 0 <= b.1 < g.nax && 0 <= b.2 < g.ngn,
        spec_node(g.nax as int, g.ngn as int, a.0, a.1, a.2) == spec_node(g.nax as int, g.ngn as int, b.0, b.1, b.2),
    ensures
        a == b,
{
    lemma_node_bound(g.nv as int, g.nax as int, g.ngn as int, a.0, a.1, a.2);
    lemma_node_bound(g.nv as int, g.nax as int, g.ngn as int, b.0, b.1, b.2);
    lemma_mixed_radix_unique(a.0 * g.nax + a.1, a.2, b.0 * g.nax + b.1, b.2, g.ngn as int);
    lemma_mixed_radix_unique(a.0, a.1, b.0, b.1, g.nax as int);
}

impl EnvelopeGrid {
    /// Every axis has at least one node and the whole table fits in memory.
    pub open spec fn wf(&self) -> bool {
        &&& self.nv >= 1
        &&& self.nax >= 1
        &&& self.ngn >= 1
        &&& self.nv * self.nax * self.ngn <= usize::MAX
    }

    /// The grid for a requested resolution: at least 2 `v` nodes, 3 `â_x` nodes and 2 `g_normal`
    /// nodes.
    pub fn from_resolution(v_points: usize, ax_points: usize, g_normal_points: usize) -> (r: EnvelopeGrid)
        requires
            at_least(v_points as int, 2) * at_least(ax_points as int, 3) * at_least(g_normal_points as int, 2)
                <= usize::MAX,
        ensures
            r.nv == at_least(v_points as int, 2),
            r.nax == at_least(ax_points as int, 3),
            r.ngn == at_least(g_normal_points as int, 2),
            r.wf(),
    {
        let nv = if v_points < 2 { 2 } else { v_points };
        let nax = if ax_points < 3 { 3 } else { ax_points };
        let ngn = if g_normal_points < 2 { 2 } else { g_normal_points };
        EnvelopeGrid { nv, nax, ngn }
    }

    /// The number of `(v, â_x, g_normal)` nodes.
    pub fn n_nodes(&self) -> (r: usize)
        requires
            self.wf(),
        ensures
            r == self.nv * self.nax * self.ngn,
    {
        proof {
            assert(self.nv * self.nax <= self.nv * self.nax * self.ngn) by (nonlinear_arith)
                requires self.ngn >= 1, self.nv * self.nax >= 0;
        }
        self.nv * self.nax * self.ngn
    }

    /// The flat index of node `(iv, iax, ign)` in a base/sensitivity table.
    pub fn node(&self, iv: usize, iax: usize, ign: usize) -> (r: usize)
        requires
            iv < self.nv,
            iax < self.nax,
            ign < self.ngn,
            self.wf(),
        ensures
            r == spec_node(self.nax as int, self.ngn as int, iv as int, iax as int, ign as int),
            r < self.nv * self.nax * self.ngn,
    {
        proof {
            lemma_node_bound(self.nv as int, self.nax as int, self.ngn as int, iv as int, iax as int, ign as int);
            let nvnax = self.nv * self.nax;
            assert(nvnax <= nvnax * self.ngn) by (nonlinear_arith)
                requires self.ngn >= 1, nvnax >= 0;
        }
        let row = iv * self.nax + iax;
        let base = row * self.ngn;
        base + ign
    }

    /// The flat index of `(iv, ign)` in a capability table (`nv × ngn`).
    pub fn cap_index(&self, iv: usize, ign: usize) -> (r: usize)
        requires
            iv < self.nv,
            ign < self.ngn,
            self.wf(),
        ensures
            r == iv * self.ngn + ign,
            r < self.nv * self.ngn,
    {
        proof {
            assert(iv * self.ngn + ign < self.nv * self.ngn) by (nonlinear_arith)
                requires iv < self.nv, ign < self.ngn, iv >= 0, ign >= 0;
            assert(self.nv * self.ngn <= self.nv * self.nax * self.ngn) by (nonlinear_arith)
                requires self.nax >= 1, self.nv >= 0, self.ngn >= 0;
            assert(iv * self.ngn <= iv * self.ngn + ign);
        }
        iv * self.ngn + ign
    }
}

/// The outward march along an `â_x` fibre from the seed node `i0`: entry `k` is the node solved
/// at step `k` and the neighbour whose solution warm-starts it (`None` for the seed). The march
/// goes up from `i0` to the last node, then down from `i0 − 1` to node 0.
pub open spec fn spec_march_entry(i0: int, n: int, k: int) -> (int, Option<int>) {
    if k == 0 {
        (i0, None)
    } else if k < n - i0 {
        (i0 + k, Some(i0 + k - 1))
    } else {
        let d = k - (n - i0) + 1;
        (i0 - d, Some(i0 - d + 1))
    }
}

/// The order in which the boundary is solved along one fibre, with each node's warm-start source.
pub fn fibre_march_order(i0: usize, nax: usize) -> (r: Vec<(usize, Option<usize>)>)
    requires
        i0 < nax,
    ensures
        r@.len() == nax,
        forall|k: int| 0 <= k < nax ==> {
            let e = spec_march_entry(i0 as int, nax as int, k);
            &&& (#[trigger] r@[k]).0 == e.0
            &&& match e.1 {
                Some(h) => r@[k].1 == Some(h as usize),
                None => r@[k].1 is None,
            }
        },
{
    let mut out: Vec<(usize, Option<usize>)> = Vec::new();
    out.push((i0, None));
    let mut iax: usize = i0 + 1;
    while iax < nax
        invariant
            i0 < iax <= nax,
            out@.len() == iax - i0,
            forall|k: int| 0 <= k < out@.len() ==> {
                let e = spec_march_entry(i0 as int, nax as int, k);
                &&& (#[trigger] out@[k]).0 == e.0
                &&& match e.1 {
                    Some(h) => out@[k].1 == Some(h as usize),
                    None => out@[k].1 is None,
                }
            },
        decreases nax - iax,
    {
        out.push((iax, Some(iax - 1)));
        iax = iax + 1;
    }
    let mut j: usize = i0;
    while j > 0
        invariant
            j <= i0 < nax,
            out@.len() == nax - j,
            forall|k: int| 0 <= k < out@.len() ==> {
                let e = spec_march_entry(i0 as int, nax as int, k);
                &&& (#[trigger] out@[k]).0 == e.0
                &&& match e.1 {
                    Some(h) => out@[k].1 == Some(h as usize),
                    None => out@[k].1 is None,
                }
            },
        decreases j,
    {
        j = j - 1;
        out.push((j, Some(j + 1)));
    }
    out
}

/// Step `k` of the march is warm-started from a node adjacent to the one it solves, and that
/// neighbour was solved at an earlier step.
pub open spec fn warm_start_adjacent_and_earlier(i0: int, n: int, k: int) -> bool {
    let e = spec_march_entry(i0, n, k);
    match e.1 {
        Some(h) => (h == e.0 - 1 || h == e.0 + 1) && exists|k2: int|
            0 <= k2 < k && #[trigger] spec_march_entry(i0, n, k2).0 == h,
        None => false,
    }
}

/// Node `node` is solved at some step of the march.
pub open spec fn marched(i0: int, n: int, node: int) -> bool {
    exists|k: int| 0 <= k < n && (#[trigger] spec_march_entry(i0, n, k)).0 == node
}

/// The march solves every node of the fibre exactly once, and every node but the seed is
/// warm-started from an adjacent node solved at an earlier step.
pub proof fn lemma_march_covers_fibre(i0: int, n: int)
    requires
        0 <= i0 < n,
    ensures
        forall|node: int| 0 <= node < n ==> #[trigger] marched(i0, n, node),
        forall|k1: int, k2: int| 0 <= k1 < n && 0 <= k2 < n && k1 != k2
            ==> (#[trigger] spec_march_entry(i0, n, k1)).0 != (#[trigger] spec_march_entry(i0, n, k2)).0,
        forall|k: int| 0 < k < n ==> #[trigger] warm_start_adjacent_and_earlier(i0, n, k),
{
    assert forall|node: int| 0 <= node < n implies #[trigger] marched(i0, n, node) by {
        if node >= i0 {
            assert(spec_march_entry(i0, n, node - i0).0 == node);
        } else {
            let k = n - i0 + (i0 - 1 - node);
            assert(spec_march_entry(i0, n, k).0 == node);
        }
    }
    assert forall|k: int| 0 < k < n implies #[trigger] warm_start_adjacent_and_earlier(i0, n, k) by {
        if k < n - i0 {
            assert(spec_march_entry(i0, n, k - 1).0 == i0 + k - 1);
        } else if k == n - i0 {
            assert(spec_march_entry(i0, n, 0).0 == i0);
        } else {
            assert(spec_march_entry(i0, n, k - 1).0 == spec_march_entry(i0, n, k).0 + 1);
        }
    }
}

} // verus!
