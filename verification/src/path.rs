//! The station layout of a T0 path: how many stations a sampled track gets, which station each
//! arc-length segment ends on (wrapping on a closed loop), the stations a curvature-smoothing window
//! averages, and the order in which the forward/backward speed passes visit the stations.
//!
//! Station values (curvatures, speeds) stay with the caller; everything here is index arithmetic.
use vstd::prelude::*;
use crate::error::T0Error;

verus! {

/// The minimum number of arc-length segments, so the passes and the lap-time sum are well defined.
pub const MIN_STATIONS: usize = 8;

/// Half-width (stations) of the curvature noise-rejection moving average.
pub const CURV_SMOOTH_RADIUS: usize = 6;

/// Euclidean remainder of `x` by `n` — the station a signed offset lands on around a loop.
pub open spec fn wrap(x: int, n: int) -> int {
    x % n
}

/// `x % n` for `x` within one lap either side of `[0, n)`.
proof fn lemma_wrap_near(x: int, n: int)
    requires
        n > 0,
        -n <= x < 2 * n,
    ensures
        0 <= x < n ==> wrap(x, n) == x,
        n <= x ==> wrap(x, n) == x - n,
        x < 0 ==> wrap(x, n) == x + n,
        0 <= wrap(x, n) < n,
{
    if 0 <= x < n {
        vstd::arithmetic::div_mod::lemma_fundamental_div_mod_converse_mod(x, n, 0, x);
    } else if n <= x {
        vstd::arithmetic::div_mod::lemma_fundamental_div_mod_converse_mod(x, n, 1, x - n);
    } else {
        vstd::arithmetic::div_mod::lemma_fundamental_div_mod_converse_mod(x, n, -1, x + n);
    }
}

/// Two offsets less than a lap apart land on distinct stations.
pub proof fn lemma_wrap_distinct(a: int, b: int, n: int)
    requires
        n > 0,
        a < b < a + n,
    ensures
        wrap(a, n) != wrap(b, n),
{
    vstd::arithmetic::div_mod::lemma_fundamental_div_mod(a, n);
    vstd::arithmetic::div_mod::lemma_fundamental_div_mod(b, n);
    vstd::arithmetic::div_mod::lemma_mod_bound(a, n);
    vstd::arithmetic::div_mod::lemma_mod_bound(b, n);
    let qa = a / n;
    let qb = b / n;
    if a % n == b % n {
        assert(n * (qb - qa) == n * qb - n * qa) by (nonlinear_arith);
        assert(b - a == n * (qb - qa));
        assert(false) by (nonlinear_arith)
            requires
                b - a == n * (qb - qa),
                0 < b - a < n,
                n > 0,
        ;
    }
}

/// The segment count after the floor: at least [`MIN_STATIONS`].
pub open spec fn spec_segments_for(raw: int) -> int {
    if raw < MIN_STATIONS { MIN_STATIONS as int } else { raw }
}

/// The number of arc-length segments a track is sampled into, from the rounded `length / ds`:
/// never fewer than [`MIN_STATIONS`].
pub fn segments_for(raw: usize) -> (r: usize)
    ensures
        r == spec_segments_for(raw as int),
        r >= MIN_STATIONS,
{
    if raw < MIN_STATIONS { MIN_STATIONS } else { raw }
}

/// The number of stations for `n_seg` segments: a closed loop has one per segment (station `N`
/// wraps to 0), an open path one more (both ends are stations).
pub open spec fn spec_station_count(n_seg: int, closed: bool) -> int {
    if closed { n_seg } else { n_seg + 1 }
}

/// The number of stations for `n_seg` segments.
pub fn station_count(n_seg: usize, closed: bool) -> (r: usize)
    requires
        closed || n_seg < usize::MAX,
    ensures
        r == spec_station_count(n_seg as int, closed),
{
    if closed { n_seg } else { n_seg + 1 }
}

/// The number of arc-length segments over `n` stations: `n` on a closed loop, `n − 1` on an open
/// path.
pub open spec fn spec_segments(n: int, closed: bool) -> int {
    if closed { n } else { n - 1 }
}

/// The number of arc-length segments over `n` stations (`n ≥ 1` on an open path).
pub fn segments(n: usize, closed: bool) -> (r: usize)
    requires
        closed || n >= 1,
    ensures
        r == spec_segments(n as int, closed),
{
    if closed { n } else { n - 1 }
}

/// Sampling `n_seg` segments into stations and counting the segments back gives `n_seg` again.
pub proof fn lemma_segments_round_trip(n_seg: int, closed: bool)
    requires
        n_seg >= 0,
    ensures
        spec_segments(spec_station_count(n_seg, closed), closed) == n_seg,
{
}

/// The station segment `seg` ends on: the next station, wrapping to 0 on a closed loop.
pub open spec fn spec_segment_end(seg: int, n: int, closed: bool) -> int {
    if closed { wrap(seg + 1, n) } else { seg + 1 }
}

/// The station segment `seg` of an `n`-station path ends on.
pub fn segment_end(seg: usize, n: usize, closed: bool) -> (r: usize)
    requires
        seg < spec_segments(n as int, closed),
    ensures
        r == spec_segment_end(seg as int, n as int, closed),
        r < n,
{
    proof {
        if closed {
            lemma_wrap_near(seg + 1, n as int);
        }
    }
    if closed {
        if seg + 1 == n { 0 } else { seg + 1 }
    } else {
        seg + 1
    }
}

/// Station `j` is where some segment ends.
pub open spec fn ends_a_segment(j: int, n: int, closed: bool) -> bool {
    exists|s: int| 0 <= s < spec_segments(n, closed) && #[trigger] spec_segment_end(s, n, closed) == j
}

/// On a closed loop every station ends exactly one segment; on an open path every station but the
/// first does.
pub proof fn lemma_segment_ends_cover(n: int, closed: bool)
    requires
        n >= 1,
    ensures
        forall|s1: int, s2: int|
            0 <= s1 < spec_segments(n, closed) && 0 <= s2 < spec_segments(n, closed) && s1 != s2
                ==> #[trigger] spec_segment_end(s1, n, closed) != #[trigger] spec_segment_end(s2, n, closed),
        forall|j: int| (if closed { 0 <= j < n } else { 1 <= j < n }) ==> #[trigger] ends_a_segment(j, n, closed),
{
    assert forall|s1: int, s2: int|
        0 <= s1 < spec_segments(n, closed) && 0 <= s2 < spec_segments(n, closed) && s1 != s2
            implies #[trigger] spec_segment_end(s1, n, closed) != #[trigger] spec_segment_end(s2, n, closed) by {
        if closed {
            if s1 < s2 {
                lemma_wrap_distinct(s1 + 1, s2 + 1, n);
            } else {
                lemma_wrap_distinct(s2 + 1, s1 + 1, n);
            }
        }
    }
    assert forall|j: int| (if closed { 0 <= j < n } else { 1 <= j < n }) implies #[trigger] ends_a_segment(j, n, closed) by {
        if closed {
            if j == 0 {
                lemma_wrap_near(n, n);
                assert(spec_segment_end(n - 1, n, closed) == j);
            } else {
                lemma_wrap_near(j, n);
                assert(spec_segment_end(j - 1, n, closed) == j);
            }
        } else {
            assert(spec_segment_end(j - 1, n, closed) == j);
        }
    }
}

/// Whether the curvature smoothing runs: a non-zero radius and at least one full window of
/// stations (otherwise the values pass through unchanged).
pub open spec fn spec_smoothing_applies(n: int, radius: int) -> bool {
    radius != 0 && n >= 2 * radius + 1
}

/// Whether the centred moving average of half-width `radius` runs over `n` stations.
pub fn smoothing_applies(n: usize, radius: usize) -> (r: bool)
    ensures
        r == spec_smoothing_applies(n as int, radius as int),
{
    radius != 0 && radius <= n / 2 && 2 * radius < n
}

/// The stations averaged for station `i` on a closed loop: the `2·radius + 1` offsets
/// `−radius ..= radius`, wrapped around the loop.
pub open spec fn spec_closed_window(i: int, n: int, radius: int) -> Seq<int> {
    Seq::new((2 * radius + 1) as nat, |k: int| wrap(i - radius + k, n))
}

/// The stations averaged for station `i` on an open path: the offsets `−radius ..= radius` that
/// fall on the path, in order.
pub open spec fn spec_open_window(i: int, n: int, radius: int) -> Seq<int> {
    let lo = if i >= radius { i - radius } else { 0 };
    let hi = if i + radius <= n - 1 { i + radius } else { n - 1 };
    Seq::new((hi - lo + 1) as nat, |k: int| lo + k)
}

/// The stations averaged for station `i` by the centred moving average of half-width `radius`
/// (wrapping on a closed loop, clipped to the path on an open one), in offset order.
pub fn smooth_window(i: usize, n: usize, radius: usize, closed: bool) -> (r: Vec<usize>)
    requires
        i < n,
        spec_smoothing_applies(n as int, radius as int),
    ensures
        closed ==> r@.len() == 2 * radius + 1,
        closed ==> forall|k: int| 0 <= k < r@.len() ==> #[trigger] r@[k] == spec_closed_window(
            i as int,
            n as int,
            radius as int,
        )[k],
        !closed ==> r@.len() == spec_open_window(i as int, n as int, radius as int).len(),
        !closed ==> forall|k: int| 0 <= k < r@.len() ==> #[trigger] r@[k] == spec_open_window(
            i as int,
            n as int,
            radius as int,
        )[k],
        forall|k: int| 0 <= k < r@.len() ==> #[trigger] r@[k] < n,
{
    let mut out: Vec<usize> = Vec::new();
    if closed {
        let width = 2 * radius + 1;
        let mut k: usize = 0;
        while k < width
            invariant
                width == 2 * radius + 1,
                2 * radius + 1 <= n,
                i < n,
                k <= width,
                out@.len() == k,
                forall|m: int| 0 <= m < k ==> #[trigger] out@[m] == spec_closed_window(
                    i as int,
                    n as int,
                    radius as int,
                )[m] && out@[m] < n,
            decreases width - k,
        {
            let idx: usize;
            if k < radius {
                let back = radius - k;
                proof { lemma_wrap_near(i - back, n as int); }
                if i >= back {
                    idx = i - back;
                } else {
                    idx = i + (n - back);
                }
            } else {
                let fwd = k - radius;
                proof { lemma_wrap_near(i + fwd, n as int); }
                if i < n - fwd {
                    idx = i + fwd;
                } else {
                    idx = i - (n - fwd);
                }
            }
            out.push(idx);
            k = k + 1;
        }
    } else {
        let lo = if i >= radius { i - radius } else { 0 };
        let hi = if n - 1 - i >= radius { i + radius } else { n - 1 };
        let mut j: usize = lo;
        while j <= hi
            invariant
                lo <= j <= hi + 1,
                hi < n,
                lo == (if i >= radius { i - radius } else { 0 }),
                hi == (if i + radius <= n - 1 { i + radius } else { n - 1 }),
                out@.len() == j - lo,
                forall|m: int| 0 <= m < out@.len() ==> #[trigger] out@[m] == lo + m,
            decreases hi + 1 - j,
        {
            out.push(j);
            j = j + 1;
        }
    }
    out
}

/// A closed-loop window never averages a station twice, and always averages its centre.
pub proof fn lemma_closed_window_distinct(i: int, n: int, radius: int)
    requires
        0 <= i < n,
        spec_smoothing_applies(n, radius),
        radius >= 0,
    ensures
        spec_closed_window(i, n, radius).no_duplicates(),
        spec_closed_window(i, n, radius)[radius] == i,
{
    let w = spec_closed_window(i, n, radius);
    assert forall|a: int, b: int| 0 <= a < w.len() && 0 <= b < w.len() && a != b implies w[a] != w[b] by {
        if a < b {
            lemma_wrap_distinct(i - radius + a, i - radius + b, n);
        } else {
            lemma_wrap_distinct(i - radius + b, i - radius + a, n);
        }
    }
    lemma_wrap_near(i, n);
}

/// An open-path window is the run of stations within `radius` of `i` that lie on the path: it
/// contains `i`, every entry is within `radius` of it, and every in-range station that close is in
/// it.
pub proof fn lemma_open_window_exact(i: int, n: int, radius: int)
    requires
        0 <= i < n,
        radius >= 0,
    ensures
        spec_open_window(i, n, radius).contains(i),
        forall|k: int| 0 <= k < spec_open_window(i, n, radius).len() ==> {
            let j = #[trigger] spec_open_window(i, n, radius)[k];
            0 <= j < n && i - radius <= j <= i + radius
        },
        forall|j: int| 0 <= j < n && i - radius <= j <= i + radius ==> #[trigger] spec_open_window(
            i,
            n,
            radius,
        ).contains(j),
{
    let w = spec_open_window(i, n, radius);
    let lo = if i >= radius { i - radius } else { 0 };
    assert(w[i - lo] == i);
    assert forall|j: int| 0 <= j < n && i - radius <= j <= i + radius implies #[trigger] spec_open_window(
        i,
        n,
        radius,
    ).contains(j) by {
        assert(w[j - lo] == j);
    }
}

/// The forward pass visit order on a closed loop, starting from the slowest station `i0`: step `k`
/// propagates from station `i0 + k` to `i0 + k + 1` (wrapped).
pub open spec fn spec_forward_step(i0: int, n: int, k: int) -> (int, int) {
    (wrap(i0 + k, n), wrap(i0 + k + 1, n))
}

/// The backward pass visit order on a closed loop, ending at `i0`: step `k` propagates from station
/// `i0 − k` to `i0 − k − 1` (wrapped).
pub open spec fn spec_backward_step(i0: int, n: int, k: int) -> (int, int) {
    (wrap(i0 - k, n), wrap(i0 - k - 1, n))
}

/// The `n` `(from, to)` station pairs of one full forward wrap from `i0`.
pub fn forward_sweep(i0: usize, n: usize) -> (r: Vec<(usize, usize)>)
    requires
        i0 < n,
    ensures
        r@.len() == n,
        forall|k: int| 0 <= k < n ==> (#[trigger] r@[k]).0 == spec_forward_step(i0 as int, n as int, k).0
            && r@[k].1 == spec_forward_step(i0 as int, n as int, k).1,
{
    let mut out: Vec<(usize, usize)> = Vec::new();
    let mut i: usize = i0;
    let mut k: usize = 0;
    proof { lemma_wrap_near(i0 as int, n as int); }
    while k < n
        invariant
            i0 < n,
            k <= n,
            i < n,
            i == wrap(i0 + k, n as int),
            out@.len() == k,
            forall|m: int| 0 <= m < k ==> (#[trigger] out@[m]).0 == spec_forward_step(i0 as int, n as int, m).0
                && out@[m].1 == spec_forward_step(i0 as int, n as int, m).1,
        decreases n - k,
    {
        let j = if i + 1 == n { 0 } else { i + 1 };
        proof {
            vstd::arithmetic::div_mod::lemma_fundamental_div_mod(i0 + k, n as int);
            let q = (i0 + k) / (n as int);
            assert((n as int) * q == q * (n as int)) by (nonlinear_arith);
            assert((q + 1) * (n as int) == q * (n as int) + n) by (nonlinear_arith);
            vstd::arithmetic::div_mod::lemma_fundamental_div_mod_converse_mod(
                i0 + k + 1,
                n as int,
                if i + 1 == n { q + 1 } else { q },
                j as int,
            );
        }
        out.push((i, j));
        i = j;
        k = k + 1;
    }
    out
}

/// The `n` `(from, to)` station pairs of one full backward wrap ending at `i0`.
pub fn backward_sweep(i0: usize, n: usize) -> (r: Vec<(usize, usize)>)
    requires
        i0 < n,
    ensures
        r@.len() == n,
        forall|k: int| 0 <= k < n ==> (#[trigger] r@[k]).0 == spec_backward_step(i0 as int, n as int, k).0
            && r@[k].1 == spec_backward_step(i0 as int, n as int, k).1,
{
    let mut out: Vec<(usize, usize)> = Vec::new();
    let mut i: usize = i0;
    let mut k: usize = 0;
    proof { lemma_wrap_near(i0 as int, n as int); }
    while k < n
        invariant
            i0 < n,
            k <= n,
            i < n,
            i == wrap(i0 - k, n as int),
            out@.len() == k,
            forall|m: int| 0 <= m < k ==> (#[trigger] out@[m]).0 == spec_backward_step(i0 as int, n as int, m).0
                && out@[m].1 == spec_backward_step(i0 as int, n as int, m).1,
        decreases n - k,
    {
        let j = if i == 0 { n - 1 } else { i - 1 };
        proof {
            vstd::arithmetic::div_mod::lemma_fundamental_div_mod(i0 - k, n as int);
            let q = (i0 - k) / (n as int);
            assert((n as int) * q == q * (n as int)) by (nonlinear_arith);
            assert((q - 1) * (n as int) == q * (n as int) - n) by (nonlinear_arith);
            vstd::arithmetic::div_mod::lemma_fundamental_div_mod_converse_mod(
                i0 - k - 1,
                n as int,
                if i == 0 { q - 1 } else { q },
                j as int,
            );
        }
        out.push((i, j));
        i = j;
        k = k + 1;
    }
    out
}

/// One full wrap of either pass updates every station exactly once, and each step moves to the
/// adjacent station in the pass direction.
pub proof fn lemma_sweeps_visit_each_station_once(i0: int, n: int)
    requires
        0 <= i0 < n,
    ensures
        forall|k1: int, k2: int| 0 <= k1 < n && 0 <= k2 < n && k1 != k2
            ==> (#[trigger] spec_forward_step(i0, n, k1)).1 != (#[trigger] spec_forward_step(i0, n, k2)).1,
        forall|k1: int, k2: int| 0 <= k1 < n && 0 <= k2 < n && k1 != k2
            ==> (#[trigger] spec_backward_step(i0, n, k1)).1 != (#[trigger] spec_backward_step(i0, n, k2)).1,
        forall|k: int| 0 <= k < n ==> (#[trigger] spec_forward_step(i0, n, k)).1 == wrap(
            spec_forward_step(i0, n, k).0 + 1,
            n,
        ),
        forall|k: int| 0 <= k < n ==> (#[trigger] spec_backward_step(i0, n, k)).1 == wrap(
            spec_backward_step(i0, n, k).0 - 1,
            n,
        ),
{
    assert forall|k1: int, k2: int| 0 <= k1 < n && 0 <= k2 < n && k1 != k2
        implies (#[trigger] spec_forward_step(i0, n, k1)).1 != (#[trigger] spec_forward_step(i0, n, k2)).1 by {
        if k1 < k2 {
            lemma_wrap_distinct(i0 + k1 + 1, i0 + k2 + 1, n);
        } else {
            lemma_wrap_distinct(i0 + k2 + 1, i0 + k1 + 1, n);
        }
    }
    assert forall|k1: int, k2: int| 0 <= k1 < n && 0 <= k2 < n && k1 != k2
        implies (#[trigger] spec_backward_step(i0, n, k1)).1 != (#[trigger] spec_backward_step(i0, n, k2)).1 by {
        if k1 < k2 {
            lemma_wrap_distinct(i0 - k2 - 1, i0 - k1 - 1, n);
        } else {
            lemma_wrap_distinct(i0 - k1 - 1, i0 - k2 - 1, n);
        }
    }
    assert forall|k: int| 0 <= k < n implies (#[trigger] spec_forward_step(i0, n, k)).1 == wrap(
        spec_forward_step(i0, n, k).0 + 1,
        n,
    ) by {
        vstd::arithmetic::div_mod::lemma_add_mod_noop(i0 + k, 1, n);
        vstd::arithmetic::div_mod::lemma_add_mod_noop(wrap(i0 + k, n), 1, n);
        vstd::arithmetic::div_mod::lemma_mod_twice(i0 + k, n);
    }
    assert forall|k: int| 0 <= k < n implies (#[trigger] spec_backward_step(i0, n, k)).1 == wrap(
        spec_backward_step(i0, n, k).0 - 1,
        n,
    ) by {
        vstd::arithmetic::div_mod::lemma_sub_mod_noop(i0 - k, 1, n);
        vstd::arithmetic::div_mod::lemma_sub_mod_noop(wrap(i0 - k, n), 1, n);
        vstd::arithmetic::div_mod::lemma_mod_twice(i0 - k, n);
    }
}

/// The per-station workspace must have exactly one slot per path station.
pub fn check_workspace(workspace: usize, path: usize) -> (r: Result<(), T0Error>)
    ensures
        workspace == path ==> r is Ok,
        workspace != path ==> r == Err::<(), T0Error>(T0Error::WorkspaceMismatch { workspace, path }),
{
    if workspace != path {
        return Err(T0Error::WorkspaceMismatch { workspace, path });
    }
    Ok(())
}

} // verus!
