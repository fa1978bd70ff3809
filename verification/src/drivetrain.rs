//! The drivetrain description the QSS reductions read: drive units (torque sources) reaching wheel
//! sinks through ordered couplers — each unit's private `path`, then the shared coupler graph from
//! its `output` node — plus the per-wheel bookkeeping shared by the T0 and T1 assemblies.
//!
//! Only the structure lives here (names, kinds, wheel sets); ratios, efficiencies and torque curves
//! stay with the caller and are looked up by the indices these functions return.
use vstd::prelude::*;

verus! {

/// A road wheel, in the `[FL, FR, RL, RR]` channel order.
#[derive(Clone, Copy, Debug, PartialEq, Eq, Structural)]
pub enum Wheel {
    /// Front left.
    Fl,
    /// Front right.
    Fr,
    /// Rear left.
    Rl,
    /// Rear right.
    Rr,
}

/// The kind of a coupler on a drive path (its ratio/efficiency data stays with the caller).
#[derive(Clone, Copy, Debug, PartialEq, Eq, Structural)]
pub enum CouplerKind {
    /// A fixed reduction.
    FixedRatio,
    /// A differential (1:1 at the power level).
    Diff,
    /// A gearbox; `map_efficiency` when its efficiency is a gridded map rather than a constant.
    Gearbox {
        /// The efficiency is a map (not a constant).
        map_efficiency: bool,
    },
}

/// A shared drivetrain-graph coupler: from node `from`, optionally on to node `to`, driving
/// `wheels` directly.
#[derive(Clone, Debug)]
pub struct CouplerEdge {
    /// The node the coupler takes torque from.
    pub from: String,
    /// The node the coupler delivers torque to (`None` for a terminal coupler).
    pub to: Option<String>,
    /// The coupler itself.
    pub coupler: CouplerKind,
    /// Wheels this coupler drives directly.
    pub wheels: Vec<Wheel>,
}

/// One drive unit (a `.ptm` torque source) and its connections.
#[derive(Clone, Debug)]
pub struct DriveUnit {
    /// The unit id (what a `policy:` overlay governs).
    pub id: String,
    /// The unit's `.ptm` source reference.
    pub source: String,
    /// The unit's private coupler path, source shaft first.
    pub path: Vec<CouplerKind>,
    /// Wheels the unit drives directly (the `wheels:` sugar).
    pub wheels: Vec<Wheel>,
    /// The shared-graph node the unit outputs onto, if any.
    pub output: Option<String>,
    /// The id of the battery pack the unit draws from, if electric.
    pub battery: Option<String>,
    /// The unit's `thermal:` `.emotor` reference, if declared.
    pub thermal: Option<String>,
}

/// The drivetrain: the drive units and the shared coupler graph.
#[derive(Clone, Debug)]
pub struct Drivetrain {
    /// Drive units, in file order.
    pub units: Vec<DriveUnit>,
    /// Shared-graph couplers, in file declaration order.
    pub couplers: Vec<CouplerEdge>,
}

/// A `policy:` overlay: the drive-unit ids it governs, in declaration order.
#[derive(Clone, Debug)]
pub struct Policy {
    /// Governed unit ids.
    pub governs: Vec<String>,
}

/// One entry of the id-keyed `batteries:` map.
#[derive(Clone, Debug)]
pub struct BatteryEntry {
    /// The pack id.
    pub id: String,
    /// The pack's `battery.params` document reference.
    pub params: String,
}

/// The parts of a resolved vehicle the topology and planning rules read.
#[derive(Clone, Debug)]
pub struct Vehicle {
    /// The drivetrain.
    pub drivetrain: Drivetrain,
    /// The optional energy-manager policy.
    pub policy: Option<Policy>,
    /// The `batteries:` map entries, in the map's iteration order (ids distinct).
    pub batteries: Vec<BatteryEntry>,
}

/// The per-wheel channel order of every `[_; 4]` wheel array.
pub const WHEEL_ORDER: [&'static str; 4] = ["FL", "FR", "RL", "RR"];

/// The channel index of a wheel: FL 0, FR 1, RL 2, RR 3.
pub open spec fn spec_wheel_index(w: Wheel) -> int {
    match w {
        Wheel::Fl => 0,
        Wheel::Fr => 1,
        Wheel::Rl => 2,
        Wheel::Rr => 3,
    }
}

/// Whether a wheel is on the front axle.
pub open spec fn is_front(w: Wheel) -> bool {
    w is Fl || w is Fr
}

/// The channel index of a wheel (`[FL, FR, RL, RR]` order).
pub fn wheel_index(w: Wheel) -> (r: usize)
    ensures
        r == spec_wheel_index(w),
        r < 4,
{
    match w {
        Wheel::Fl => 0,
        Wheel::Fr => 1,
        Wheel::Rl => 2,
        Wheel::Rr => 3,
    }
}

/// The driven-wheel mask of a set of wheel lists: slot `k` is set iff some list names the wheel
/// with index `k`.
pub open spec fn mask_of(lists: Seq<Seq<Wheel>>, k: int) -> bool {
    exists|u: int, j: int|
        0 <= u < lists.len() && 0 <= j < lists[u].len() && spec_wheel_index(#[trigger] lists[u][j]) == k
}

/// The wheel lists of the drive units.
pub open spec fn unit_wheel_lists(units: Seq<DriveUnit>) -> Seq<Seq<Wheel>> {
    units.map_values(|u: DriveUnit| u.wheels@)
}

/// Which wheels the drive units drive, `[FL, FR, RL, RR]`, with the T1 fallback: when no unit
/// declares any wheel, all four count as driven (`defaulted` is then `true`, and the assembly
/// records a note).
pub fn driven_mask(units: &Vec<DriveUnit>) -> (r: ([bool; 4], bool))
    ensures
        r.1 == (forall|k: int| 0 <= k < 4 ==> !mask_of(unit_wheel_lists(units@), k)),
        forall|k: int| 0 <= k < 4 ==> r.0[k] == (r.1 || mask_of(unit_wheel_lists(units@), k)),
{
    let ghost lists = unit_wheel_lists(units@);
    let mut driven = [false; 4];
    let mut u: usize = 0;
    while u < units.len()
        invariant
            0 <= u <= units.len(),
            lists == unit_wheel_lists(units@),
            forall|k: int| 0 <= k < 4 ==> driven[k] == (exists|uu: int, j: int|
                0 <= uu < u && 0 <= j < lists[uu].len() && spec_wheel_index(#[trigger] lists[uu][j]) == k),
        decreases units.len() - u,
    {
        let wheels = &units[u].wheels;
        assert(lists[u as int] == wheels@);
        let mut j: usize = 0;
        while j < wheels.len()
            invariant
                0 <= j <= wheels.len(),
                0 <= u < units.len(),
                lists == unit_wheel_lists(units@),
                wheels@ == lists[u as int],
                forall|k: int| 0 <= k < 4 ==> driven[k] == (
                    (exists|uu: int, jj: int| 0 <= uu < u && 0 <= jj < lists[uu].len()
                        && spec_wheel_index(#[trigger] lists[uu][jj]) == k)
                    || (exists|jj: int| 0 <= jj < j && spec_wheel_index(#[trigger] lists[u as int][jj]) == k)),
            decreases wheels.len() - j,
        {
            let idx = wheel_index(wheels[j]);
            driven[idx] = true;
            proof {
                assert forall|k: int| 0 <= k < 4 implies driven[k] == (
                    (exists|uu: int, jj: int| 0 <= uu < u && 0 <= jj < lists[uu].len()
                        && spec_wheel_index(#[trigger] lists[uu][jj]) == k)
                    || (exists|jj: int| 0 <= jj < j + 1 && spec_wheel_index(#[trigger] lists[u as int][jj]) == k)) by {
                    if k == idx {
                        assert(spec_wheel_index(lists[u as int][j as int]) == k);
                    }
                }
            }
            j = j + 1;
        }
        proof {
            assert forall|k: int| 0 <= k < 4 implies driven[k] == (exists|uu: int, jj: int|
                0 <= uu < u + 1 && 0 <= jj < lists[uu].len() && spec_wheel_index(#[trigger] lists[uu][jj]) == k) by {
                if exists|uu: int, jj: int| 0 <= uu < u + 1 && 0 <= jj < lists[uu].len()
                    && spec_wheel_index(#[trigger] lists[uu][jj]) == k {
                    let (uu, jj) = choose|uu: int, jj: int| 0 <= uu < u + 1 && 0 <= jj < lists[uu].len()
                        && spec_wheel_index(#[trigger] lists[uu][jj]) == k;
                    if uu == u {
                        assert(spec_wheel_index(lists[u as int][jj]) == k);
                    }
                }
            }
        }
        u = u + 1;
    }
    proof {
        assert(lists.len() == units@.len());
        assert forall|k: int| 0 <= k < 4 implies driven[k] == mask_of(lists, k) by {}
    }
    let none = !driven[0] && !driven[1] && !driven[2] && !driven[3];
    proof {
        if !none {
            assert(mask_of(lists, 0) || mask_of(lists, 1) || mask_of(lists, 2) || mask_of(lists, 3));
        }
    }
    if none {
        driven = [true; 4];
    }
    (driven, none)
}

/// Whether some wheel of `wheels` has channel index `k`.
pub open spec fn wheel_in(wheels: Seq<Wheel>, k: int) -> bool {
    exists|j: int| 0 <= j < wheels.len() && spec_wheel_index(#[trigger] wheels[j]) == k
}

/// The driven-wheel mask of one wheel list, `[FL, FR, RL, RR]` (no fallback).
pub fn wheel_mask(wheels: &Vec<Wheel>) -> (r: [bool; 4])
    ensures
        forall|k: int| 0 <= k < 4 ==> r[k] == wheel_in(wheels@, k),
{
    let mut driven = [false; 4];
    let mut j: usize = 0;
    while j < wheels.len()
        invariant
            0 <= j <= wheels.len(),
            forall|k: int| 0 <= k < 4 ==> driven[k] == (exists|jj: int| 0 <= jj < j
                && spec_wheel_index(#[trigger] wheels@[jj]) == k),
        decreases wheels.len() - j,
    {
        let idx = wheel_index(wheels[j]);
        driven[idx] = true;
        proof {
            assert forall|k: int| 0 <= k < 4 implies driven[k] == (exists|jj: int| 0 <= jj < j + 1
                && spec_wheel_index(#[trigger] wheels@[jj]) == k) by {
                if k == idx {
                    assert(spec_wheel_index(wheels@[j as int]) == k);
                }
            }
        }
        j = j + 1;
    }
    driven
}

/// The note recorded when no drive unit declares a wheel and T1 falls back to all four.
pub open spec fn all_wheels_msg() -> Seq<char> {
    "no drive units declare wheels; T1 traction uses all four wheels"@
}

/// The note recorded when no drive unit declares a wheel and T1 falls back to all four.
pub fn all_wheels_note() -> (m: String)
    ensures
        m@ == all_wheels_msg(),
{
    String::from_str("no drive units declare wheels; T1 traction uses all four wheels")
}

/// The left/right driven-wheel index pair when a mask drives exactly one axle's two wheels.
pub open spec fn spec_axle_pair(driven: [bool; 4]) -> Option<(usize, usize)> {
    if driven[0] && driven[1] && !driven[2] && !driven[3] {
        Some((0usize, 1usize))
    } else if driven[2] && driven[3] && !driven[0] && !driven[1] {
        Some((2usize, 3usize))
    } else {
        None
    }
}

/// The left/right driven-wheel index pair when a unit drives exactly one axle's two wheels: front
/// `(FL, FR)`, rear `(RL, RR)`, otherwise `None`.
pub fn axle_pair(driven: [bool; 4]) -> (r: Option<(usize, usize)>)
    ensures
        r == spec_axle_pair(driven),
{
    let front = driven[0] && driven[1] && !driven[2] && !driven[3];
    let rear = driven[2] && driven[3] && !driven[0] && !driven[1];
    if front {
        Some((wheel_index(Wheel::Fl), wheel_index(Wheel::Fr)))
    } else if rear {
        Some((wheel_index(Wheel::Rl), wheel_index(Wheel::Rr)))
    } else {
        None
    }
}

/// Which axle's rolling radius a driven set uses.
#[derive(Clone, Copy, Debug, PartialEq, Eq, Structural)]
pub enum DrivenRadius {
    /// Front-only drive: the front radius.
    Front,
    /// Drive spanning both axles: the mean of the two radii.
    Mean,
    /// Rear-only drive, or nothing declared: the rear radius.
    Rear,
}

/// The radius choice for a front/rear driven pair of flags.
pub open spec fn spec_radius_choice(front: bool, rear: bool) -> DrivenRadius {
    if front && rear {
        DrivenRadius::Mean
    } else if front {
        DrivenRadius::Front
    } else {
        DrivenRadius::Rear
    }
}

/// The driven-axle radius choice for a unit's terminal wheels (T0 assembly): front-only → front,
/// both axles → the mean, rear-only or none → rear.
pub fn wheels_radius_choice(wheels: &Vec<Wheel>) -> (r: DrivenRadius)
    ensures
        r == spec_radius_choice(
            exists|j: int| 0 <= j < wheels@.len() && is_front(#[trigger] wheels@[j]),
            exists|j: int| 0 <= j < wheels@.len() && !is_front(#[trigger] wheels@[j]),
        ),
{
    let mut front = false;
    let mut rear = false;
    let mut j: usize = 0;
    while j < wheels.len()
        invariant
            0 <= j <= wheels.len(),
            front == (exists|jj: int| 0 <= jj < j && is_front(#[trigger] wheels@[jj])),
            rear == (exists|jj: int| 0 <= jj < j && !is_front(#[trigger] wheels@[jj])),
        decreases wheels.len() - j,
    {
        let w = wheels[j];
        if w == Wheel::Fl || w == Wheel::Fr {
            front = true;
        } else {
            rear = true;
        }
        j = j + 1;
    }
    if front && rear {
        DrivenRadius::Mean
    } else if front {
        DrivenRadius::Front
    } else {
        DrivenRadius::Rear
    }
}

/// The driven-axle radius choice for a driven mask (T1 assembly).
pub fn mask_radius_choice(driven: [bool; 4]) -> (r: DrivenRadius)
    ensures
        r == spec_radius_choice(driven[0] || driven[1], driven[2] || driven[3]),
{
    let front = driven[0] || driven[1];
    let rear = driven[2] || driven[3];
    if front && rear {
        DrivenRadius::Mean
    } else if front {
        DrivenRadius::Front
    } else {
        DrivenRadius::Rear
    }
}

} // verus!
