//! The structural side of the powertrain reductions: how a coupler path folds into a gear ladder,
//! which differential a path carries, which drive unit is the primary geared unit, which unit owns
//! the primary differential, which gearbox (if exactly one) sets the ERS driveline efficiency, and
//! which mechanical source the policy-governed machine takes its gear from.
//!
//! Ratios, efficiencies and torque curves stay with the caller and are looked up by the positions
//! and indices these functions return.
use vstd::prelude::*;
use crate::drivetrain::{
    axle_pair, is_front, mask_radius_choice, spec_axle_pair, spec_radius_choice, wheel_in, wheel_mask,
    wheels_radius_choice, CouplerEdge, CouplerKind, DrivenRadius, Drivetrain, DriveUnit, Vehicle, Wheel,
};
use crate::error::{T0Error, T1Error};
use crate::graph::{
    flatten_chain, governed_unit_ids, lemma_flatten_no_repeated_coupler, spec_flatten, spec_governed, ChainLink,
};
use crate::stack::{find_unit_with_id, spec_governed_unit};
use crate::strings::{contains_name, decimal, push_decimal, views};

verus! {

/// The coupler a flattened-chain link names.
pub open spec fn link_kind(dt: Drivetrain, unit: DriveUnit, l: ChainLink) -> CouplerKind {
    match l {
        ChainLink::Path(k) => unit.path@[k as int],
        ChainLink::Edge(k) => dt.couplers@[k as int].coupler,
    }
}

/// Every link of a chain names an existing coupler.
pub open spec fn links_in_range(dt: Drivetrain, unit: DriveUnit, chain: Seq<ChainLink>) -> bool {
    forall|a: int| 0 <= a < chain.len() ==> match #[trigger] chain[a] {
        ChainLink::Path(k) => k < unit.path@.len(),
        ChainLink::Edge(k) => k < dt.couplers@.len(),
    }
}

/// The couplers of a flattened chain, in chain order.
pub fn chain_kinds(dt: &Drivetrain, unit: &DriveUnit, chain: &Vec<ChainLink>) -> (r: Vec<CouplerKind>)
    requires
        links_in_range(*dt, *unit, chain@),
    ensures
        r@.len() == chain@.len(),
        forall|a: int| 0 <= a < chain@.len() ==> #[trigger] r@[a] == link_kind(*dt, *unit, chain@[a]),
{
    let mut out: Vec<CouplerKind> = Vec::new();
    let mut a: usize = 0;
    while a < chain.len()
        invariant
            0 <= a <= chain.len(),
            links_in_range(*dt, *unit, chain@),
            out@.len() == a,
            forall|b: int| 0 <= b < a ==> #[trigger] out@[b] == link_kind(*dt, *unit, chain@[b]),
        decreases chain.len() - a,
    {
        let kind = match chain[a] {
            ChainLink::Path(k) => unit.path[k],
            ChainLink::Edge(k) => dt.couplers[k].coupler,
        };
        out.push(kind);
        a = a + 1;
    }
    out
}

/// Positions of the gearboxes among the first `k` couplers of a path, in order.
pub open spec fn gearbox_positions(path: Seq<CouplerKind>, k: int) -> Seq<usize>
    decreases k,
{
    if k <= 0 {
        Seq::empty()
    } else if path[k - 1] is Gearbox {
        gearbox_positions(path, k - 1).push((k - 1) as usize)
    } else {
        gearbox_positions(path, k - 1)
    }
}

/// Positions of the fixed reductions among the first `k` couplers of a path, in order.
pub open spec fn fixed_positions(path: Seq<CouplerKind>, k: int) -> Seq<usize>
    decreases k,
{
    if k <= 0 {
        Seq::empty()
    } else if path[k - 1] is FixedRatio {
        fixed_positions(path, k - 1).push((k - 1) as usize)
    } else {
        fixed_positions(path, k - 1)
    }
}

/// Whether some gearbox on the path has a gridded efficiency map.
pub open spec fn has_map_gearbox(path: Seq<CouplerKind>) -> bool {
    exists|k: int| 0 <= k < path.len() && #[trigger] path[k] == (CouplerKind::Gearbox { map_efficiency: true })
}

/// How a coupler path folds into a gear ladder: the first gearbox supplies the selectable gears,
/// any further gearbox is folded in as a fixed reduction (its final drive times its first ratio),
/// fixed ratios multiply into the base ratio, and differentials are 1:1.
#[derive(Clone, Debug)]
pub struct FoldPlan {
    /// Position of the gearbox that supplies the selectable gears (the first one on the path).
    pub gearbox: Option<usize>,
    /// Positions of the further gearboxes, folded in as fixed reductions, in path order.
    pub folded_gearboxes: Vec<usize>,
    /// Positions of the fixed reductions, in path order.
    pub fixed_ratios: Vec<usize>,
    /// Whether some gearbox's efficiency is a gridded map rather than a constant.
    pub has_map_efficiency: bool,
}

/// `plan` is the fold of `path`.
pub open spec fn fold_matches(path: Seq<CouplerKind>, plan: FoldPlan) -> bool {
    let g = gearbox_positions(path, path.len() as int);
    &&& plan.gearbox == (if g.len() > 0 { Some(g[0]) } else { None::<usize> })
    &&& plan.folded_gearboxes@ == (if g.len() > 0 { g.subrange(1, g.len() as int) } else { g })
    &&& plan.fixed_ratios@ == fixed_positions(path, path.len() as int)
    &&& plan.has_map_efficiency == has_map_gearbox(path)
}

/// Fold a coupler path: which position supplies the gears, which gearboxes fold in as fixed
/// reductions, which positions are fixed ratios, and whether a gearbox efficiency is a map.
pub fn fold_plan(path: &Vec<CouplerKind>) -> (r: FoldPlan)
    ensures
        fold_matches(path@, r),
{
    let mut gearbox: Option<usize> = None;
    let mut folded: Vec<usize> = Vec::new();
    let mut fixed: Vec<usize> = Vec::new();
    let mut has_map = false;
    let mut k: usize = 0;
    while k < path.len()
        invariant
            0 <= k <= path.len(),
            gearbox == (if gearbox_positions(path@, k as int).len() > 0 {
                Some(gearbox_positions(path@, k as int)[0])
            } else {
                None::<usize>
            }),
            folded@ == (if gearbox_positions(path@, k as int).len() > 0 {
                gearbox_positions(path@, k as int).subrange(1, gearbox_positions(path@, k as int).len() as int)
            } else {
                gearbox_positions(path@, k as int)
            }),
            fixed@ == fixed_positions(path@, k as int),
            has_map == exists|j: int| 0 <= j < k && #[trigger] path@[j] == (CouplerKind::Gearbox { map_efficiency: true }),
        decreases path.len() - k,
    {
        let ghost g = gearbox_positions(path@, k as int);
        match path[k] {
            CouplerKind::FixedRatio => {
                fixed.push(k);
            },
            CouplerKind::Diff => {},
            CouplerKind::Gearbox { map_efficiency } => {
                if map_efficiency {
                    has_map = true;
                }
                if gearbox.is_none() {
                    gearbox = Some(k);
                    proof {
                        assert(g.len() == 0);
                        assert(gearbox_positions(path@, k + 1) == seq![k]);
                        assert(folded@ =~= gearbox_positions(path@, k + 1).subrange(1, 1));
                    }
                } else {
                    folded.push(k);
                    proof {
                        let g1 = gearbox_positions(path@, k + 1);
                        assert(g1 == g.push(k));
                        assert(g1.subrange(1, g1.len() as int) =~= g.subrange(1, g.len() as int).push(k));
                    }
                }
            },
        }
        k = k + 1;
    }
    FoldPlan { gearbox, folded_gearboxes: folded, fixed_ratios: fixed, has_map_efficiency: has_map }
}

/// The point-mass tier's fold of drive unit `unit`'s chain: as [`fold_plan`], but a gearbox with a
/// gridded efficiency map is an error (T0 reads constant efficiencies only).
pub fn fold_plan_t0(path: &Vec<CouplerKind>, unit: usize) -> (r: Result<FoldPlan, T0Error>)
    ensures
        has_map_gearbox(path@) ==> r == Err::<FoldPlan, T0Error>(T0Error::UnsupportedEfficiencyMap { unit }),
        !has_map_gearbox(path@) ==> (r matches Ok(p) && fold_matches(path@, p)),
{
    let plan = fold_plan(path);
    if plan.has_map_efficiency {
        return Err(T0Error::UnsupportedEfficiencyMap { unit });
    }
    Ok(plan)
}

/// The position of the first differential on a path.
pub open spec fn spec_first_diff(path: Seq<CouplerKind>) -> Option<int> {
    if exists|k: int| 0 <= k < path.len() && path[k] is Diff {
        Some(choose|k: int| 0 <= k < path.len() && path[k] is Diff
            && forall|j: int| 0 <= j < k ==> !(path[j] is Diff))
    } else {
        None
    }
}

/// The position of the differential that models a unit's torque split (the first `Diff` on its
/// path); `None` means a rigid (locked) axle.
pub fn first_diff(path: &Vec<CouplerKind>) -> (r: Option<usize>)
    ensures
        match r {
            Some(k) => k < path@.len() && path@[k as int] is Diff
                && (forall|j: int| 0 <= j < k ==> !(path@[j] is Diff))
                && spec_first_diff(path@) == Some(k as int),
            None => spec_first_diff(path@) is None,
        },
{
    let mut k: usize = 0;
    while k < path.len()
        invariant
            0 <= k <= path.len(),
            forall|j: int| 0 <= j < k ==> !(path@[j] is Diff),
        decreases path.len() - k,
    {
        if path[k] == CouplerKind::Diff {
            proof {
                let c = choose|c: int| 0 <= c < path@.len() && path@[c] is Diff
                    && forall|j: int| 0 <= j < c ==> !(path@[j] is Diff);
                if c < k {
                    assert(!(path@[c] is Diff));
                } else if k < c {
                    assert(!(path@[k as int] is Diff));
                }
            }
            return Some(k);
        }
        k = k + 1;
    }
    None
}

/// The note recorded when a point-mass drive chain carries more than one gearbox.
pub open spec fn multiple_gearboxes_msg(unit: nat) -> Seq<char> {
    "drive unit "@ + decimal(unit) + " has multiple gearboxes; only the first provides gears"@
}

/// The note recorded when a point-mass drive chain carries more than one gearbox.
pub fn multiple_gearboxes_note(unit: usize) -> (m: String)
    ensures
        m@ == multiple_gearboxes_msg(unit as nat),
{
    let mut m = String::new();
    m.append("drive unit ");
    push_decimal(&mut m, unit);
    m.append(" has multiple gearboxes; only the first provides gears");
    m
}

/// The note recorded when a T1 drive unit's gearbox efficiency is a map (a constant proxy stands
/// in until the map is installed).
pub open spec fn map_efficiency_msg(unit: nat) -> Seq<char> {
    "drive unit "@ + decimal(unit)
        + " gearbox uses a map efficiency; a constant proxy carries the traction force until the efficiency map is installed"@
}

/// The note recorded when a T1 drive unit's gearbox efficiency is a map.
pub fn map_efficiency_note(unit: usize) -> (m: String)
    ensures
        m@ == map_efficiency_msg(unit as nat),
{
    let mut m = String::new();
    m.append("drive unit ");
    push_decimal(&mut m, unit);
    m.append(
        " gearbox uses a map efficiency; a constant proxy carries the traction force until the efficiency map is installed",
    );
    m
}

/// `i` is the primary geared unit: it has the most gears, and no later unit has as many (the last
/// of the tied maxima).
pub open spec fn is_primary_geared(counts: Seq<usize>, i: int) -> bool {
    &&& 0 <= i < counts.len()
    &&& forall|j: int| 0 <= j < counts.len() ==> #[trigger] counts[j] <= counts[i]
    &&& forall|j: int| i < j < counts.len() ==> #[trigger] counts[j] < counts[i]
}

/// The primary geared unit (the one the shift model follows), from the per-unit gear counts: the
/// unit with the most selectable gears, the last one on a tie; `None` without drive units.
pub fn primary_geared_unit(counts: &Vec<usize>) -> (r: Option<usize>)
    ensures
        match r {
            Some(i) => is_primary_geared(counts@, i as int),
            None => counts@.len() == 0,
        },
{
    if counts.len() == 0 {
        return None;
    }
    let mut best: usize = 0;
    let mut j: usize = 1;
    while j < counts.len()
        invariant
            1 <= j <= counts.len(),
            best < j,
            forall|m: int| 0 <= m < j ==> #[trigger] counts@[m] <= counts@[best as int],
            forall|m: int| best < m < j ==> #[trigger] counts@[m] < counts@[best as int],
        decreases counts.len() - j,
    {
        if counts[j] >= counts[best] {
            best = j;
        }
        j = j + 1;
    }
    Some(best)
}

/// The number of selectable gears on the primary geared unit: the largest gear count, and at least
/// 1 (direct drive, or no drive units).
pub open spec fn spec_primary_gear_count(counts: Seq<usize>, r: int) -> bool {
    &&& r >= 1
    &&& forall|j: int| 0 <= j < counts.len() ==> #[trigger] counts[j] <= r
    &&& (r == 1 || exists|j: int| 0 <= j < counts.len() && #[trigger] counts[j] == r)
}

/// The number of selectable gears on the primary geared unit (`1` for direct drive).
pub fn primary_gear_count(counts: &Vec<usize>) -> (r: usize)
    ensures
        spec_primary_gear_count(counts@, r as int),
{
    let mut best: usize = 1;
    let mut j: usize = 0;
    while j < counts.len()
        invariant
            0 <= j <= counts.len(),
            best >= 1,
            forall|m: int| 0 <= m < j ==> #[trigger] counts@[m] <= best,
            best == 1 || exists|m: int| 0 <= m < j && #[trigger] counts@[m] == best,
        decreases counts.len() - j,
    {
        if counts[j] > best {
            best = counts[j];
        }
        j = j + 1;
    }
    best
}

/// The unit that owns the primary differential: the first unit that drives exactly one axle's
/// left/right pair (`pairs[u]` is unit `u`'s driven pair, if any).
pub fn primary_diff_unit(pairs: &Vec<Option<(usize, usize)>>) -> (r: Option<usize>)
    ensures
        match r {
            Some(u) => u < pairs@.len() && pairs@[u as int] is Some
                && forall|j: int| 0 <= j < u ==> #[trigger] pairs@[j] is None,
            None => forall|j: int| 0 <= j < pairs@.len() ==> #[trigger] pairs@[j] is None,
        },
{
    let mut u: usize = 0;
    while u < pairs.len()
        invariant
            0 <= u <= pairs.len(),
            forall|j: int| 0 <= j < u ==> #[trigger] pairs@[j] is None,
        decreases pairs.len() - u,
    {
        if pairs[u].is_some() {
            return Some(u);
        }
        u = u + 1;
    }
    None
}

/// Where a gearbox sits: on a drive unit's private path, or on a shared-graph coupler.
#[derive(Clone, Copy, Debug, PartialEq, Eq, Structural)]
pub enum GearboxSite {
    /// Position `position` of drive unit `unit`'s private path.
    UnitPath {
        /// The drive unit.
        unit: usize,
        /// The position on its path.
        position: usize,
    },
    /// Shared-graph coupler `edge`.
    Coupler {
        /// The coupler's index.
        edge: usize,
    },
}

/// The gearboxes among the first `k` couplers of unit `u`'s path, with their map flags.
pub open spec fn path_gearbox_sites(path: Seq<CouplerKind>, u: int, k: int) -> Seq<(GearboxSite, bool)>
    decreases k,
{
    if k <= 0 {
        Seq::empty()
    } else {
        let p = path_gearbox_sites(path, u, k - 1);
        match path[k - 1] {
            CouplerKind::Gearbox { map_efficiency } => p.push(
                (GearboxSite::UnitPath { unit: u as usize, position: (k - 1) as usize }, map_efficiency),
            ),
            _ => p,
        }
    }
}

/// The gearboxes on the private paths of the first `n` units that are not policy-governed.
pub open spec fn unit_gearbox_sites(units: Seq<DriveUnit>, governed: Set<Seq<char>>, n: int) -> Seq<(GearboxSite, bool)>
    decreases n,
{
    if n <= 0 {
        Seq::empty()
    } else {
        let p = unit_gearbox_sites(units, governed, n - 1);
        if governed.contains(units[n - 1].id@) {
            p
        } else {
            p + path_gearbox_sites(units[n - 1].path@, n - 1, units[n - 1].path@.len() as int)
        }
    }
}

/// The gearboxes among the first `n` shared-graph couplers.
pub open spec fn edge_gearbox_sites(edges: Seq<CouplerEdge>, n: int) -> Seq<(GearboxSite, bool)>
    decreases n,
{
    if n <= 0 {
        Seq::empty()
    } else {
        let p = edge_gearbox_sites(edges, n - 1);
        match edges[n - 1].coupler {
            CouplerKind::Gearbox { map_efficiency } => p.push(
                (GearboxSite::Coupler { edge: (n - 1) as usize }, map_efficiency),
            ),
            _ => p,
        }
    }
}

/// Every gearbox the ERS driveline scan sees, in scan order: the non-governed units' private paths,
/// then the shared couplers.
pub open spec fn gearbox_sites(v: Vehicle) -> Seq<(GearboxSite, bool)> {
    unit_gearbox_sites(v.drivetrain.units@, spec_governed(v), v.drivetrain.units@.len() as int)
        + edge_gearbox_sites(v.drivetrain.couplers@, v.drivetrain.couplers@.len() as int)
}

/// The gearbox whose constant efficiency is the ERS driveline efficiency: the only gearbox of the
/// drivetrain (the governed machine's own path excluded), when it has a constant efficiency.
pub open spec fn spec_single_gearbox(v: Vehicle) -> Option<GearboxSite> {
    let s = gearbox_sites(v);
    if s.len() == 1 && !s[0].1 { Some(s[0].0) } else { None }
}

/// What a recorded unit-path site says: the unit and position it names hold a gearbox with the
/// recorded map flag, on a unit the policy does not govern, among the first `n` units.
pub open spec fn unit_site_ok(units: Seq<DriveUnit>, governed: Set<Seq<char>>, n: int, e: (GearboxSite, bool)) -> bool {
    match e.0 {
        GearboxSite::UnitPath { unit, position } => unit < n && !governed.contains(units[unit as int].id@)
            && position < units[unit as int].path@.len()
            && units[unit as int].path@[position as int] == (CouplerKind::Gearbox { map_efficiency: e.1 }),
        GearboxSite::Coupler { .. } => false,
    }
}

/// What a recorded coupler site says: the coupler is a gearbox with the recorded map flag.
pub open spec fn edge_site_ok(edges: Seq<CouplerEdge>, n: int, e: (GearboxSite, bool)) -> bool {
    match e.0 {
        GearboxSite::Coupler { edge } => edge < n
            && edges[edge as int].coupler == (CouplerKind::Gearbox { map_efficiency: e.1 }),
        GearboxSite::UnitPath { .. } => false,
    }
}

proof fn lemma_path_sites(path: Seq<CouplerKind>, u: int, k: int)
    requires
        0 <= k <= path.len() <= usize::MAX,
        0 <= u <= usize::MAX,
    ensures
        forall|a: int| 0 <= a < path_gearbox_sites(path, u, k).len() ==> {
            let e = #[trigger] path_gearbox_sites(path, u, k)[a];
            e.0 matches GearboxSite::UnitPath { unit, position } && unit == u && position < k
                && path[position as int] == (CouplerKind::Gearbox { map_efficiency: e.1 })
        },
    decreases k,
{
    if k > 0 {
        lemma_path_sites(path, u, k - 1);
    }
}

proof fn lemma_unit_sites(units: Seq<DriveUnit>, governed: Set<Seq<char>>, n: int)
    requires
        0 <= n <= units.len() <= usize::MAX,
        forall|i: int| 0 <= i < units.len() ==> (#[trigger] units[i]).path@.len() <= usize::MAX,
    ensures
        forall|a: int| 0 <= a < unit_gearbox_sites(units, governed, n).len()
            ==> unit_site_ok(units, governed, n, #[trigger] unit_gearbox_sites(units, governed, n)[a]),
    decreases n,
{
    if n > 0 {
        lemma_unit_sites(units, governed, n - 1);
        let p = unit_gearbox_sites(units, governed, n - 1);
        assert forall|a: int| 0 <= a < p.len() implies unit_site_ok(units, governed, n, #[trigger] p[a]) by {
            assert(unit_site_ok(units, governed, n - 1, p[a]));
        }
        if !governed.contains(units[n - 1].id@) {
            let path = units[n - 1].path@;
            lemma_path_sites(path, n - 1, path.len() as int);
            let q = path_gearbox_sites(path, n - 1, path.len() as int);
            assert forall|a: int| 0 <= a < (p + q).len() implies unit_site_ok(units, governed, n, #[trigger] (p + q)[a]) by {
                if a >= p.len() {
                    assert((p + q)[a] == q[a - p.len()]);
                } else {
                    assert((p + q)[a] == p[a]);
                }
            }
        }
    }
}

proof fn lemma_edge_sites(edges: Seq<CouplerEdge>, n: int)
    requires
        0 <= n <= edges.len() <= usize::MAX,
    ensures
        forall|a: int| 0 <= a < edge_gearbox_sites(edges, n).len()
            ==> edge_site_ok(edges, n, #[trigger] edge_gearbox_sites(edges, n)[a]),
    decreases n,
{
    if n > 0 {
        lemma_edge_sites(edges, n - 1);
        let p = edge_gearbox_sites(edges, n - 1);
        assert forall|a: int| 0 <= a < p.len() implies edge_site_ok(edges, n, #[trigger] p[a]) by {
            assert(edge_site_ok(edges, n - 1, p[a]));
        }
    }
}

/// The gearbox that sets the ERS driveline efficiency is never on the policy-governed machine's
/// own path (its ratio never enters the driveline efficiency), and it is a gearbox with a constant
/// efficiency.
pub proof fn lemma_single_gearbox_not_governed(v: Vehicle)
    requires
        v.drivetrain.units@.len() <= usize::MAX,
        v.drivetrain.couplers@.len() <= usize::MAX,
        forall|i: int| 0 <= i < v.drivetrain.units@.len() ==> (#[trigger] v.drivetrain.units@[i]).path@.len() <= usize::MAX,
    ensures
        match spec_single_gearbox(v) {
            Some(GearboxSite::UnitPath { unit, position }) => unit < v.drivetrain.units@.len()
                && !spec_governed(v).contains(v.drivetrain.units@[unit as int].id@)
                && position < v.drivetrain.units@[unit as int].path@.len()
                && v.drivetrain.units@[unit as int].path@[position as int] == (CouplerKind::Gearbox { map_efficiency: false }),
            Some(GearboxSite::Coupler { edge }) => edge < v.drivetrain.couplers@.len()
                && v.drivetrain.couplers@[edge as int].coupler == (CouplerKind::Gearbox { map_efficiency: false }),
            None => true,
        },
{
    let units = v.drivetrain.units@;
    let edges = v.drivetrain.couplers@;
    let gov = spec_governed(v);
    lemma_unit_sites(units, gov, units.len() as int);
    lemma_edge_sites(edges, edges.len() as int);
    let p = unit_gearbox_sites(units, gov, units.len() as int);
    let q = edge_gearbox_sites(edges, edges.len() as int);
    let s = gearbox_sites(v);
    if s.len() == 1 {
        if p.len() == 1 {
            assert(s[0] == p[0]);
            assert(unit_site_ok(units, gov, units.len() as int, p[0]));
        } else {
            assert(s[0] == q[0]);
            assert(edge_site_ok(edges, edges.len() as int, q[0]));
        }
    }
}

fn collect_gearbox_sites(v: &Vehicle) -> (r: Vec<(GearboxSite, bool)>)
    ensures
        r@ == gearbox_sites(*v),
{
    let governed = governed_unit_ids(v);
    let units = &v.drivetrain.units;
    let mut out: Vec<(GearboxSite, bool)> = Vec::new();
    let mut u: usize = 0;
    while u < units.len()
        invariant
            0 <= u <= units.len(),
            units == &v.drivetrain.units,
            views(governed@).to_set() == spec_governed(*v),
            out@ == unit_gearbox_sites(units@, spec_governed(*v), u as int),
        decreases units.len() - u,
    {
        let unit = &units[u];
        if !contains_name(&governed, &unit.id) {
            proof {
                assert(!views(governed@).to_set().contains(unit.id@));
            }
            let ghost before = out@;
            let mut k: usize = 0;
            while k < unit.path.len()
                invariant
                    0 <= k <= unit.path.len(),
                    out@ == before + path_gearbox_sites(unit.path@, u as int, k as int),
                decreases unit.path.len() - k,
            {
                match unit.path[k] {
                    CouplerKind::Gearbox { map_efficiency } => {
                        out.push((GearboxSite::UnitPath { unit: u, position: k }, map_efficiency));
                        proof {
                            assert(out@ =~= before + path_gearbox_sites(unit.path@, u as int, k + 1));
                        }
                    },
                    _ => {},
                }
                k = k + 1;
            }
        } else {
            proof {
                assert(views(governed@).to_set().contains(unit.id@));
            }
        }
        u = u + 1;
    }
    let ghost head = out@;
    let edges = &v.drivetrain.couplers;
    let mut e: usize = 0;
    while e < edges.len()
        invariant
            0 <= e <= edges.len(),
            edges == &v.drivetrain.couplers,
            head == unit_gearbox_sites(v.drivetrain.units@, spec_governed(*v), v.drivetrain.units@.len() as int),
            out@ == head + edge_gearbox_sites(edges@, e as int),
        decreases edges.len() - e,
    {
        match edges[e].coupler {
            CouplerKind::Gearbox { map_efficiency } => {
                out.push((GearboxSite::Coupler { edge: e }, map_efficiency));
                proof {
                    assert(out@ =~= head + edge_gearbox_sites(edges@, e + 1));
                }
            },
            _ => {},
        }
        e = e + 1;
    }
    out
}

/// The gearbox that sets the ERS driveline efficiency: when the drivetrain (the policy-governed
/// machine's own path excluded) has exactly one gearbox and its efficiency is a constant, that
/// gearbox; otherwise `None` (ambiguous, map-valued, or direct drive — the caller then uses 1).
pub fn single_gearbox(v: &Vehicle) -> (r: Option<GearboxSite>)
    ensures
        r == spec_single_gearbox(*v),
{
    let sites = collect_gearbox_sites(v);
    if sites.len() == 1 && !sites[0].1 {
        Some(sites[0].0)
    } else {
        None
    }
}

/// Whether an output node is `node`.
pub open spec fn on_node(o: Option<String>, node: Seq<char>) -> bool {
    match o {
        Some(n) => n@ == node,
        None => false,
    }
}

/// The first mechanical unit outputting onto node `node`.
pub open spec fn first_on_node(nodes: Seq<Option<String>>, node: Seq<char>) -> Option<int> {
    if exists|i: int| 0 <= i < nodes.len() && on_node(nodes[i], node) {
        Some(choose|i: int| 0 <= i < nodes.len() && on_node(nodes[i], node)
            && forall|j: int| 0 <= j < i ==> !on_node(nodes[j], node))
    } else {
        None
    }
}

/// The reference source for the governed machine's gear selection: the first-declared mechanical
/// unit on the machine's output node, provided its gear ladder is as long as the machine's.
pub open spec fn spec_reference_source(
    node: Option<Seq<char>>,
    nodes: Seq<Option<String>>,
    gears: Seq<usize>,
    machine_gears: usize,
) -> Option<int> {
    match node {
        None => None,
        Some(nd) => match first_on_node(nodes, nd) {
            Some(i) => if gears[i] == machine_gears { Some(i) } else { None },
            None => None,
        },
    }
}

/// The mechanical unit whose engaged gear pins the governed machine's crank speed. `unit_nodes[i]`
/// and `unit_gears[i]` are mechanical unit `i`'s output node and gear count. `None` when the
/// machine has no output node, no mechanical unit shares it, or the first one that does has a gear
/// ladder of a different length (the machine then sits on a gearbox of its own).
pub fn reference_source(
    node: &Option<String>,
    unit_nodes: &Vec<Option<String>>,
    unit_gears: &Vec<usize>,
    machine_gears: usize,
) -> (r: Option<usize>)
    requires
        unit_nodes@.len() == unit_gears@.len(),
    ensures
        r matches Some(i) ==> i < unit_nodes@.len() && unit_gears@[i as int] == machine_gears
            && (node matches Some(nd) && on_node(unit_nodes@[i as int], nd@)),
        match r {
            Some(i) => spec_reference_source(
                match node { Some(n) => Some(n@), None => None },
                unit_nodes@,
                unit_gears@,
                machine_gears,
            ) == Some(i as int),
            None => spec_reference_source(
                match node { Some(n) => Some(n@), None => None },
                unit_nodes@,
                unit_gears@,
                machine_gears,
            ) is None,
        },
{
    match node {
        None => None,
        Some(nd) => {
            let mut i: usize = 0;
            while i < unit_nodes.len()
                invariant
                    0 <= i <= unit_nodes.len(),
                    unit_nodes@.len() == unit_gears@.len(),
                    on_node(*node, nd@),
                    forall|j: int| 0 <= j < i ==> !on_node(unit_nodes@[j], nd@),
                decreases unit_nodes.len() - i,
            {
                let hit = match &unit_nodes[i] {
                    Some(n) => *n == *nd,
                    None => false,
                };
                if hit {
                    proof {
                        assert(on_node(unit_nodes@[i as int], nd@));
                        let c = choose|c: int| 0 <= c < unit_nodes@.len() && on_node(unit_nodes@[c], nd@)
                            && forall|j: int| 0 <= j < c ==> !on_node(unit_nodes@[j], nd@);
                        if c < i {
                            assert(!on_node(unit_nodes@[c], nd@));
                        } else if i < c {
                            assert(!on_node(unit_nodes@[i as int], nd@));
                        }
                        assert(first_on_node(unit_nodes@, nd@) == Some(i as int));
                    }
                    if unit_gears[i] == machine_gears {
                        return Some(i);
                    } else {
                        return None;
                    }
                }
                i = i + 1;
            }
            None
        },
    }
}

/// The policy-governed machine: the drive unit named by the policy's first `governs` id (the first
/// unit with that id); `None` without a policy, with an empty `governs`, or when no unit has it.
pub fn governed_machine(v: &Vehicle) -> (r: Option<usize>)
    ensures
        match r {
            Some(u) => spec_governed_unit(*v) == Some(u as int) && u < v.drivetrain.units@.len(),
            None => spec_governed_unit(*v) is None,
        },
{
    match &v.policy {
        None => None,
        Some(p) => {
            if p.governs.len() == 0 {
                None
            } else {
                find_unit_with_id(&v.drivetrain.units, &p.governs[0])
            }
        },
    }
}

/// The first `n` units that are not policy-governed, by index.
pub open spec fn mechanical_prefix(units: Seq<DriveUnit>, governed: Set<Seq<char>>, n: int) -> Seq<usize>
    decreases n,
{
    if n <= 0 {
        Seq::empty()
    } else if governed.contains(units[n - 1].id@) {
        mechanical_prefix(units, governed, n - 1)
    } else {
        mechanical_prefix(units, governed, n - 1).push((n - 1) as usize)
    }
}

/// The drive units that supply mechanical traction: those a `policy:` overlay does not govern (the
/// governed machine is force-added by the energy manager instead), in declaration order.
pub open spec fn spec_mechanical_units(v: Vehicle) -> Seq<usize> {
    mechanical_prefix(v.drivetrain.units@, spec_governed(v), v.drivetrain.units@.len() as int)
}

/// The indices of the mechanical (non-governed) drive units, in declaration order.
pub fn mechanical_units(v: &Vehicle) -> (r: Vec<usize>)
    ensures
        r@ == spec_mechanical_units(*v),
        forall|k: int| 0 <= k < r@.len() ==> #[trigger] r@[k] < v.drivetrain.units@.len(),
{
    let governed = governed_unit_ids(v);
    let units = &v.drivetrain.units;
    let mut out: Vec<usize> = Vec::new();
    let mut u: usize = 0;
    while u < units.len()
        invariant
            0 <= u <= units.len(),
            units == &v.drivetrain.units,
            views(governed@).to_set() == spec_governed(*v),
            out@ == mechanical_prefix(units@, spec_governed(*v), u as int),
            forall|k: int| 0 <= k < out@.len() ==> #[trigger] out@[k] < u,
        decreases units.len() - u,
    {
        if !contains_name(&governed, &units[u].id) {
            proof { assert(!views(governed@).to_set().contains(units@[u as int].id@)); }
            out.push(u);
        } else {
            proof { assert(views(governed@).to_set().contains(units@[u as int].id@)); }
        }
        u = u + 1;
    }
    out
}

/// Whether a unit's flattened chain ends on a wheel of the front (`front`) or rear axle.
pub open spec fn unit_drives_axle(dt: Drivetrain, unit: DriveUnit, front: bool) -> bool {
    exists|j: int| 0 <= j < spec_flatten(dt, unit).1.len() && is_front(#[trigger] spec_flatten(dt, unit).1[j]) == front
}

/// Whether some mechanical (non-governed) unit drives the front (`front`) or rear axle.
pub open spec fn mechanical_drives_axle(v: Vehicle, front: bool) -> bool {
    let mech = spec_mechanical_units(v);
    exists|k: int| 0 <= k < mech.len() && #[trigger] unit_drives_axle(
        v.drivetrain,
        v.drivetrain.units@[mech[k] as int],
        front,
    )
}

/// The axles the mechanical sources drive, `(front, rear)`, from the terminal wheels of their
/// flattened chains (the policy-governed machine is a force-adder and is left out). They set
/// which share of the braking the regen harvest can reach.
pub fn mechanical_driven_axles(v: &Vehicle) -> (r: (bool, bool))
    ensures
        r.0 == mechanical_drives_axle(*v, true),
        r.1 == mechanical_drives_axle(*v, false),
{
    let mech = mechanical_units(v);
    let mut front = false;
    let mut rear = false;
    let mut k: usize = 0;
    while k < mech.len()
        invariant
            0 <= k <= mech.len(),
            mech@ == spec_mechanical_units(*v),
            forall|m: int| 0 <= m < mech@.len() ==> #[trigger] mech@[m] < v.drivetrain.units@.len(),
            front == (exists|m: int| 0 <= m < k && #[trigger] unit_drives_axle(
                v.drivetrain,
                v.drivetrain.units@[mech@[m] as int],
                true,
            )),
            rear == (exists|m: int| 0 <= m < k && #[trigger] unit_drives_axle(
                v.drivetrain,
                v.drivetrain.units@[mech@[m] as int],
                false,
            )),
        decreases mech.len() - k,
    {
        let unit = &v.drivetrain.units[mech[k]];
        let (_, wheels) = flatten_chain(&v.drivetrain, unit);
        let mut uf = false;
        let mut ur = false;
        let mut j: usize = 0;
        while j < wheels.len()
            invariant
                0 <= j <= wheels.len(),
                uf == (exists|jj: int| 0 <= jj < j && is_front(#[trigger] wheels@[jj]) == true),
                ur == (exists|jj: int| 0 <= jj < j && is_front(#[trigger] wheels@[jj]) == false),
            decreases wheels.len() - j,
        {
            let w = wheels[j];
            if w == Wheel::Fl || w == Wheel::Fr {
                uf = true;
            } else {
                ur = true;
            }
            j = j + 1;
        }
        proof {
            assert(wheels@ == spec_flatten(v.drivetrain, *unit).1);
            assert(uf == unit_drives_axle(v.drivetrain, *unit, true));
            assert(ur == unit_drives_axle(v.drivetrain, *unit, false));
        }
        front = front || uf;
        rear = rear || ur;
        proof {
            assert(v.drivetrain.units@[mech@[k as int] as int] == *unit);
        }
        k = k + 1;
    }
    (front, rear)
}

/// A point-mass vehicle needs a propulsion source: a mechanical unit or the ERS force-adder.
pub fn require_drive(n_mechanical: usize, has_ers: bool) -> (r: Result<(), T0Error>)
    ensures
        (n_mechanical > 0 || has_ers) ==> r is Ok,
        (n_mechanical == 0 && !has_ers) ==> r == Err::<(), T0Error>(T0Error::NoDrive),
{
    if n_mechanical == 0 && !has_ers {
        return Err(T0Error::NoDrive);
    }
    Ok(())
}

/// A map install must name an existing drive unit.
pub fn check_drive_unit(unit_idx: usize, n_units: usize) -> (r: Result<(), T1Error>)
    ensures
        unit_idx < n_units ==> r is Ok,
        unit_idx >= n_units ==> r == Err::<(), T1Error>(T1Error::UnknownDriveUnit { unit: unit_idx }),
{
    if unit_idx >= n_units {
        return Err(T1Error::UnknownDriveUnit { unit: unit_idx });
    }
    Ok(())
}

/// The structural reduction of one mechanical drive unit for the point-mass tier: its flattened
/// chain, the couplers along it, which axle's radius its terminal wheels use, and how the chain
/// folds into gears.
#[derive(Clone, Debug)]
pub struct T0UnitPlan {
    /// The flattened chain: private path, then the shared couplers below the output node.
    pub chain: Vec<ChainLink>,
    /// The coupler each chain link names, in chain order.
    pub kinds: Vec<CouplerKind>,
    /// The wheel radius the unit's terminal wheels use.
    pub radius: DrivenRadius,
    /// The fold of the chain (positions index `chain`/`kinds`).
    pub fold: FoldPlan,
}

/// Reduce drive unit `unit` (declaration index `index`) for the point-mass tier. Fails when a
/// gearbox on its chain has a map efficiency.
pub fn plan_t0_unit(dt: &Drivetrain, unit: &DriveUnit, index: usize) -> (r: Result<T0UnitPlan, T0Error>)
    ensures
        match r {
            Ok(p) => {
                let f = spec_flatten(*dt, *unit);
                &&& p.chain@ == f.0
                &&& p.kinds@.len() == f.0.len()
                &&& forall|a: int| 0 <= a < f.0.len() ==> #[trigger] p.kinds@[a] == link_kind(*dt, *unit, f.0[a])
                &&& p.radius == spec_radius_choice(
                    exists|j: int| 0 <= j < f.1.len() && is_front(#[trigger] f.1[j]),
                    exists|j: int| 0 <= j < f.1.len() && !is_front(#[trigger] f.1[j]),
                )
                &&& !has_map_gearbox(p.kinds@)
                &&& fold_matches(p.kinds@, p.fold)
            },
            Err(e) => {
                &&& e == T0Error::UnsupportedEfficiencyMap { unit: index }
                &&& exists|kinds: Seq<CouplerKind>| {
                    &&& kinds.len() == spec_flatten(*dt, *unit).0.len()
                    &&& (forall|a: int| 0 <= a < kinds.len() ==> #[trigger] kinds[a] == link_kind(
                        *dt,
                        *unit,
                        spec_flatten(*dt, *unit).0[a],
                    ))
                    &&& has_map_gearbox(kinds)
                }
            },
        },
{
    let (chain, wheels) = flatten_chain(dt, unit);
    proof {
        lemma_flatten_no_repeated_coupler(*dt, *unit);
    }
    let kinds = chain_kinds(dt, unit, &chain);
    let radius = wheels_radius_choice(&wheels);
    proof {
        assert(chain@ == spec_flatten(*dt, *unit).0);
        assert(wheels@ == spec_flatten(*dt, *unit).1);
    }
    match fold_plan_t0(&kinds, index) {
        Ok(fold) => Ok(T0UnitPlan { chain, kinds, radius, fold }),
        Err(e) => {
            proof {
                assert(has_map_gearbox(kinds@));
                let w = kinds@;
                assert(w.len() == spec_flatten(*dt, *unit).0.len());
            }
            Err(e)
        },
    }
}

/// The structural reduction of one drive unit for the T1 powertrain: its driven wheels, the wheel
/// radius they use, the fold of its private path, its differential, and its axle pair.
#[derive(Clone, Debug)]
pub struct T1UnitPlan {
    /// Which wheels the unit drives, `[FL, FR, RL, RR]`.
    pub driven: [bool; 4],
    /// The wheel radius its driven wheels use.
    pub radius: DrivenRadius,
    /// The fold of its private path.
    pub fold: FoldPlan,
    /// The position of the differential that splits its torque (`None`: locked axle).
    pub diff: Option<usize>,
    /// Its left/right wheel pair, when it drives exactly one axle's two wheels.
    pub axle_pair: Option<(usize, usize)>,
}

/// Reduce a drive unit for the T1 powertrain (a map-efficiency gearbox is carried by a constant
/// proxy and flagged in the fold, not rejected).
pub fn plan_t1_unit(unit: &DriveUnit) -> (r: T1UnitPlan)
    ensures
        forall|k: int| 0 <= k < 4 ==> r.driven[k] == wheel_in(unit.wheels@, k),
        r.radius == spec_radius_choice(r.driven[0] || r.driven[1], r.driven[2] || r.driven[3]),
        fold_matches(unit.path@, r.fold),
        match r.diff {
            Some(k) => spec_first_diff(unit.path@) == Some(k as int),
            None => spec_first_diff(unit.path@) is None,
        },
        r.axle_pair == spec_axle_pair(r.driven),
{
    let driven = wheel_mask(&unit.wheels);
    let radius = mask_radius_choice(driven);
    let fold = fold_plan(&unit.path);
    let diff = first_diff(&unit.path);
    let pair = axle_pair(driven);
    T1UnitPlan { driven, radius, fold, diff, axle_pair: pair }
}

/// The number of driven wheels on the front and on the rear axle, `(front, rear)` — a machine's
/// braking capability is attributed to the axles it drives in these proportions.
pub fn axle_wheel_counts(driven: [bool; 4]) -> (r: (usize, usize))
    ensures
        r.0 == (if driven[0] { 1int } else { 0int }) + (if driven[1] { 1int } else { 0int }),
        r.1 == (if driven[2] { 1int } else { 0int }) + (if driven[3] { 1int } else { 0int }),
{
    let f0: usize = if driven[0] { 1 } else { 0 };
    let f1: usize = if driven[1] { 1 } else { 0 };
    let r0: usize = if driven[2] { 1 } else { 0 };
    let r1: usize = if driven[3] { 1 } else { 0 };
    (f0 + f1, r0 + r1)
}

/// Where a drive unit's regen (negative-quadrant) torque envelope comes from.
#[derive(Clone, Copy, Debug, PartialEq, Eq, Structural)]
pub enum RegenEnvelope {
    /// An internal-combustion engine recovers nothing: the envelope is identically zero.
    Zero,
    /// The `.ptm` declares `max_regen_torque_nm_vs_speed`.
    Declared,
    /// An electric machine without a declared envelope: assumed symmetric with its drive envelope
    /// (an estimate, recorded in the notes).
    Symmetric,
}

/// The regen envelope source of a drive unit: zero for an ICE whatever it declares, the declared
/// curve otherwise, and the drive envelope mirrored when none is declared.
pub fn regen_envelope(is_ice: bool, declares_regen: bool) -> (r: RegenEnvelope)
    ensures
        r == (if is_ice {
            RegenEnvelope::Zero
        } else if declares_regen {
            RegenEnvelope::Declared
        } else {
            RegenEnvelope::Symmetric
        }),
{
    if is_ice {
        RegenEnvelope::Zero
    } else if declares_regen {
        RegenEnvelope::Declared
    } else {
        RegenEnvelope::Symmetric
    }
}

/// The note recorded for an ICE's zero regen envelope.
pub open spec fn ice_regen_msg(unit: nat) -> Seq<char> {
    "drive unit "@ + decimal(unit)
        + " is an internal-combustion engine: it recovers no braking energy (regen envelope zero; overrun drag is not commandable regen)"@
}

/// The note recorded for an ICE's zero regen envelope.
pub fn ice_regen_note(unit: usize) -> (m: String)
    ensures
        m@ == ice_regen_msg(unit as nat),
{
    let mut m = String::new();
    m.append("drive unit ");
    push_decimal(&mut m, unit);
    m.append(
        " is an internal-combustion engine: it recovers no braking energy (regen envelope zero; overrun drag is not commandable regen)",
    );
    m
}

/// The note recorded when an electric machine's regen envelope is assumed symmetric.
pub open spec fn symmetric_regen_msg(unit: nat) -> Seq<char> {
    "drive unit "@ + decimal(unit)
        + " declares no `max_regen_torque_nm_vs_speed`; its regen braking envelope is assumed symmetric with the drive envelope (estimated)"@
}

/// The note recorded when an electric machine's regen envelope is assumed symmetric.
pub fn symmetric_regen_note(unit: usize) -> (m: String)
    ensures
        m@ == symmetric_regen_msg(unit as nat),
{
    let mut m = String::new();
    m.append("drive unit ");
    push_decimal(&mut m, unit);
    m.append(
        " declares no `max_regen_torque_nm_vs_speed`; its regen braking envelope is assumed symmetric with the drive envelope (estimated)",
    );
    m
}

/// The note recorded when the car carries an `ers:` block (ERS deployment is a separate mechanism,
/// not part of the T1 traction ceiling).
pub open spec fn ers_not_in_ceiling_msg() -> Seq<char> {
    "ERS/MGU-K deployment is NOT folded into the T1 traction ceiling (it is a separate rule-based deployment mechanism, §8.3); the ceiling is the drivetrain units only."@
}

/// The note recorded when the car carries an `ers:` block.
pub fn ers_not_in_ceiling_note() -> (m: String)
    ensures
        m@ == ers_not_in_ceiling_msg(),
{
    String::from_str(
        "ERS/MGU-K deployment is NOT folded into the T1 traction ceiling (it is a separate rule-based deployment mechanism, §8.3); the ceiling is the drivetrain units only.",
    )
}

/// The canonical `.ptm` sidecar axis names for a single-voltage map, in tensor order.
pub fn map_axis_names() -> (r: [&'static str; 2])
    ensures
        r[0]@ == "speed_rpm"@,
        r[1]@ == "torque_nm"@,
{
    ["speed_rpm", "torque_nm"]
}

/// The canonical `.ptm` sidecar axis names for a Vdc-stacked map, in tensor order (Vdc last).
pub fn map_axis_names_vdc() -> (r: [&'static str; 3])
    ensures
        r[0]@ == "speed_rpm"@,
        r[1]@ == "torque_nm"@,
        r[2]@ == "vdc_v"@,
{
    ["speed_rpm", "torque_nm", "vdc_v"]
}

/// Whether a decoded sidecar table carries a Vdc axis (the maps are then 3-D and the Vdc–SoC
/// coupling is live).
pub fn has_vdc_axis(axis_names: &Vec<String>) -> (r: bool)
    ensures
        r == views(axis_names@).contains("vdc_v"@),
{
    let vdc = String::from_str("vdc_v");
    contains_name(axis_names, &vdc)
}

/// How an installed map extrapolates along one axis.
#[derive(Clone, Copy, Debug, PartialEq, Eq, Structural)]
pub enum AxisExtrapolation {
    /// Clamp to the boundary value.
    Clamp,
    /// Extrapolate linearly from the boundary slice.
    Linear,
}

/// The per-axis extrapolation of an installed efficiency/loss map: speed and torque clamp; a Vdc
/// axis (the third, when present) extrapolates linearly so a low-SoC voltage below the grid stays
/// usable.
pub fn map_extrapolation(has_vdc: bool) -> (r: Vec<AxisExtrapolation>)
    ensures
        has_vdc ==> r@ == seq![AxisExtrapolation::Clamp, AxisExtrapolation::Clamp, AxisExtrapolation::Linear],
        !has_vdc ==> r@ == seq![AxisExtrapolation::Clamp, AxisExtrapolation::Clamp],
{
    let mut modes: Vec<AxisExtrapolation> = Vec::new();
    modes.push(AxisExtrapolation::Clamp);
    modes.push(AxisExtrapolation::Clamp);
    if has_vdc {
        modes.push(AxisExtrapolation::Linear);
    }
    proof {
        if has_vdc {
            assert(modes@ =~= seq![AxisExtrapolation::Clamp, AxisExtrapolation::Clamp, AxisExtrapolation::Linear]);
        } else {
            assert(modes@ =~= seq![AxisExtrapolation::Clamp, AxisExtrapolation::Clamp]);
        }
    }
    modes
}

/// The note recorded when a drive unit's efficiency/loss map is installed.
pub open spec fn map_installed_msg(unit: nat, has_vdc: bool) -> Seq<char> {
    "drive unit "@ + decimal(unit) + ": efficiency/loss map installed — energy accounting is live"@
        + (if has_vdc { " (Vdc-coupled; linear extrapolation below/above the voltage grid)"@ } else { Seq::empty() })
}

/// The note recorded when a drive unit's efficiency/loss map is installed.
pub fn map_installed_note(unit: usize, has_vdc: bool) -> (m: String)
    ensures
        m@ == map_installed_msg(unit as nat, has_vdc),
{
    let mut m = String::new();
    m.append("drive unit ");
    push_decimal(&mut m, unit);
    m.append(": efficiency/loss map installed — energy accounting is live");
    if has_vdc {
        m.append(" (Vdc-coupled; linear extrapolation below/above the voltage grid)");
    }
    proof {
        if !has_vdc {
            assert(m@ =~= map_installed_msg(unit as nat, has_vdc));
        }
    }
    m
}

} // verus!
