//! The slow-stack PLAN — the pure eligibility/pairing rules for the QSS electro slow-state stack.
//!
//! The plan is a typed decision over the resolved vehicle alone (no loader, no bytes). The caller
//! then performs exactly the IO the plan names: load the battery document + ECM sidecar, and — when
//! a thermal pairing exists — the `.emotor` network + its unit's `.ptm`.
//!
//! Rules (packs are an id-keyed `batteries:` map; a policy-governed car's pack marches without a
//! machine-thermal network when no drive unit declares one):
//!
//! 1. No `batteries:` entry ⇒ no stack (single-voltage evaluation).
//! 2. A pack ⇒ it marches. The RELEVANT pack is the one the policy-governed machine references (or,
//!    absent a policy, the first electric unit's pack, or the first map entry). The FIRST drive unit
//!    declaring a `thermal:` `.emotor` ref carries the machine slow state; extra declarations are
//!    dropped WITH a note. No thermal unit ⇒ the pack marches alone, also with a note.
use vstd::prelude::*;
use crate::drivetrain::{BatteryEntry, DriveUnit, Vehicle};
use crate::strings::{decimal, push_decimal};

verus! {

/// The drive unit whose `.emotor` network carries the machine slow state.
#[derive(Clone, Debug, PartialEq, Eq)]
pub struct ThermalPairing {
    /// Index of the paired drive unit.
    pub unit_idx: usize,
    /// Its `thermal:` `.emotor` document reference.
    pub emotor_path: String,
    /// Its `source:` `.ptm` reference (the machine mass feeds the thermal assembly).
    pub ptm_path: String,
}

/// The typed slow-stack plan for one vehicle.
#[derive(Clone, Debug, PartialEq, Eq)]
pub enum SlowStackPlan {
    /// No `batteries:` entry — no electro slow stack (single-voltage evaluation).
    NoBattery,
    /// A pack marches; optionally paired with ONE machine-thermal network.
    Pack {
        /// The resolved pack's `battery.params` document reference.
        battery_path: String,
        /// The machine-thermal pairing, when a drive unit declares one.
        thermal: Option<ThermalPairing>,
        /// Human-readable notes produced by the pairing rules (dropped extra declarations, the
        /// relaxed no-thermal case).
        notes: Vec<String>,
    },
}

/// Index of the first unit whose id is `id`.
pub open spec fn first_unit_with_id(units: Seq<DriveUnit>, id: Seq<char>) -> Option<int> {
    if exists|i: int| 0 <= i < units.len() && units[i].id@ == id {
        Some(choose|i: int| 0 <= i < units.len() && units[i].id@ == id
            && forall|k: int| 0 <= k < i ==> units[k].id@ != id)
    } else {
        None
    }
}

/// The drive unit the policy governs first (its first `governs` id, resolved to the first unit
/// with that id).
pub open spec fn spec_governed_unit(spec: Vehicle) -> Option<int> {
    match spec.policy {
        Some(p) => if p.governs@.len() > 0 {
            first_unit_with_id(spec.drivetrain.units@, p.governs@[0]@)
        } else {
            None
        },
        None => None,
    }
}

/// Index of the first unit that draws from a battery pack.
pub open spec fn first_battery_unit(units: Seq<DriveUnit>) -> Option<int> {
    if exists|i: int| 0 <= i < units.len() && units[i].battery is Some {
        Some(choose|i: int| 0 <= i < units.len() && units[i].battery is Some
            && forall|k: int| 0 <= k < i ==> units[k].battery is None)
    } else {
        None
    }
}

/// The pack id named by the governed machine, else by the first battery-bearing unit.
pub open spec fn spec_pack_id(spec: Vehicle) -> Option<Seq<char>> {
    let units = spec.drivetrain.units@;
    let governed = match spec_governed_unit(spec) {
        Some(u) => match units[u].battery {
            Some(b) => Some(b@),
            None => None,
        },
        None => None,
    };
    match governed {
        Some(id) => Some(id),
        None => match first_battery_unit(units) {
            Some(u) => Some(units[u].battery->Some_0@),
            None => None,
        },
    }
}

/// Index of the first `batteries:` entry keyed `id`.
pub open spec fn battery_entry(batteries: Seq<BatteryEntry>, id: Seq<char>) -> Option<int> {
    if exists|i: int| 0 <= i < batteries.len() && batteries[i].id@ == id {
        Some(choose|i: int| 0 <= i < batteries.len() && batteries[i].id@ == id
            && forall|k: int| 0 <= k < i ==> batteries[k].id@ != id)
    } else {
        None
    }
}

/// The relevant pack: the entry the pack id names, else the first map entry.
pub open spec fn spec_relevant_battery(spec: Vehicle) -> Option<int> {
    let named = match spec_pack_id(spec) {
        Some(id) => battery_entry(spec.batteries@, id),
        None => None,
    };
    match named {
        Some(b) => Some(b),
        None => if spec.batteries@.len() > 0 { Some(0) } else { None },
    }
}

/// The number of the first `k` units declaring a `thermal:` model.
pub open spec fn thermal_count(units: Seq<DriveUnit>, k: int) -> nat
    decreases k,
{
    if k <= 0 {
        0
    } else if units[k - 1].thermal is Some {
        thermal_count(units, k - 1) + 1
    } else {
        thermal_count(units, k - 1)
    }
}

/// Index of the first unit declaring a `thermal:` model.
pub open spec fn first_thermal_unit(units: Seq<DriveUnit>) -> Option<int> {
    if exists|i: int| 0 <= i < units.len() && units[i].thermal is Some {
        Some(choose|i: int| 0 <= i < units.len() && units[i].thermal is Some
            && forall|k: int| 0 <= k < i ==> units[k].thermal is None)
    } else {
        None
    }
}

/// The note recorded when several drive units declare a thermal model.
pub open spec fn several_thermal_note(count: nat, unit: nat) -> Seq<char> {
    decimal(count) + " drive units declare `.emotor` thermal models — the QSS coupling marches ONE network (unit "@
        + decimal(unit)
        + "); the aggregate powertrain loss heats it and the others are not integrated this milestone"@
}

/// The note recorded when a pack marches without any thermal model.
pub open spec fn no_thermal_note() -> Seq<char> {
    "battery present with no `.emotor` drive-unit thermal model — the pack marches without a machine-thermal network (no thermal derate)"@
}

/// The plan's contract: no relevant pack ⇒ `NoBattery`; otherwise the relevant pack's params,
/// the first thermal unit's pairing, and the rule notes.
pub open spec fn plan_matches(spec: Vehicle, r: SlowStackPlan) -> bool {
    let units = spec.drivetrain.units@;
    match r {
        SlowStackPlan::NoBattery => spec_relevant_battery(spec) is None,
        SlowStackPlan::Pack { battery_path, thermal, notes } => {
            &&& spec_relevant_battery(spec) matches Some(b) && battery_path@ == spec.batteries@[b].params@
            &&& thermal_matches(units, thermal, notes@)
        },
    }
}

pub(crate) fn find_unit_with_id(units: &Vec<DriveUnit>, id: &String) -> (r: Option<usize>)
    ensures
        match r {
            Some(i) => first_unit_with_id(units@, id@) == Some(i as int) && i < units.len(),
            None => first_unit_with_id(units@, id@) is None,
        },
{
    let mut i: usize = 0;
    while i < units.len()
        invariant
            0 <= i <= units.len(),
            forall|k: int| 0 <= k < i ==> units@[k].id@ != id@,
        decreases units.len() - i,
    {
        if units[i].id == *id {
            proof {
                let j = choose|j: int| 0 <= j < units@.len() && units@[j].id@ == id@
                    && forall|k: int| 0 <= k < j ==> units@[k].id@ != id@;
                if j < i {
                    assert(units@[j].id@ != id@);
                } else if i < j {
                    assert(units@[i as int].id@ != id@);
                }
            }
            return Some(i);
        }
        i = i + 1;
    }
    None
}

fn find_battery(batteries: &Vec<BatteryEntry>, id: &String) -> (r: Option<usize>)
    ensures
        match r {
            Some(i) => battery_entry(batteries@, id@) == Some(i as int) && i < batteries.len(),
            None => battery_entry(batteries@, id@) is None,
        },
{
    let mut i: usize = 0;
    while i < batteries.len()
        invariant
            0 <= i <= batteries.len(),
            forall|k: int| 0 <= k < i ==> batteries@[k].id@ != id@,
        decreases batteries.len() - i,
    {
        if batteries[i].id == *id {
            proof {
                let j = choose|j: int| 0 <= j < batteries@.len() && batteries@[j].id@ == id@
                    && forall|k: int| 0 <= k < j ==> batteries@[k].id@ != id@;
                if j < i {
                    assert(batteries@[j].id@ != id@);
                } else if i < j {
                    assert(batteries@[i as int].id@ != id@);
                }
            }
            return Some(i);
        }
        i = i + 1;
    }
    None
}

fn find_battery_unit(units: &Vec<DriveUnit>) -> (r: Option<usize>)
    ensures
        match r {
            Some(i) => first_battery_unit(units@) == Some(i as int) && i < units.len()
                && units@[i as int].battery is Some,
            None => first_battery_unit(units@) is None,
        },
{
    let mut i: usize = 0;
    while i < units.len()
        invariant
            0 <= i <= units.len(),
            forall|k: int| 0 <= k < i ==> units@[k].battery is None,
        decreases units.len() - i,
    {
        if units[i].battery.is_some() {
            proof {
                let j = choose|j: int| 0 <= j < units@.len() && units@[j].battery is Some
                    && forall|k: int| 0 <= k < j ==> units@[k].battery is None;
                if j < i {
                    assert(units@[j].battery is None);
                } else if i < j {
                    assert(units@[i as int].battery is None);
                }
            }
            return Some(i);
        }
        i = i + 1;
    }
    None
}

/// The thermal half of the plan's contract, over the drive units alone.
pub open spec fn thermal_matches(units: Seq<DriveUnit>, thermal: Option<ThermalPairing>, notes: Seq<String>) -> bool {
    let n = units.len() as int;
    match first_thermal_unit(units) {
        Some(u) => {
            &&& thermal matches Some(t) && t.unit_idx == u
                && t.emotor_path@ == units[u].thermal->Some_0@
                && t.ptm_path@ == units[u].source@
            &&& if thermal_count(units, n) > 1 {
                notes.len() == 1 && notes[0]@ == several_thermal_note(thermal_count(units, n), u as nat)
            } else {
                notes.len() == 0
            }
        },
        None => thermal is None && notes.len() == 1 && notes[0]@ == no_thermal_note(),
    }
}

/// Index of the relevant `batteries:` entry (see [`spec_relevant_battery`]).
fn relevant_battery(spec: &Vehicle) -> (r: Option<usize>)
    ensures
        match r {
            Some(b) => spec_relevant_battery(*spec) == Some(b as int) && b < spec.batteries.len(),
            None => spec_relevant_battery(*spec) is None,
        },
{
    let units = &spec.drivetrain.units;
    // The pack the policy-governed machine references.
    let mut governed_pack: Option<&String> = None;
    match &spec.policy {
        Some(p) => {
            if p.governs.len() > 0 {
                match find_unit_with_id(units, &p.governs[0]) {
                    Some(u) => {
                        governed_pack = units[u].battery.as_ref();
                    },
                    None => {},
                }
            }
        },
        None => {},
    }
    // Else the first electric (battery-bearing) unit's pack.
    let pack_id: Option<&String> = match governed_pack {
        Some(id) => Some(id),
        None => match find_battery_unit(units) {
            Some(u) => units[u].battery.as_ref(),
            None => None,
        },
    };
    assert(match pack_id {
        Some(id) => spec_pack_id(*spec) == Some(id@),
        None => spec_pack_id(*spec) is None,
    });
    // Resolve it in the id-keyed map, else the first map entry.
    let named: Option<usize> = match pack_id {
        Some(id) => find_battery(&spec.batteries, id),
        None => None,
    };
    match named {
        Some(b) => Some(b),
        None => if spec.batteries.len() == 0 { None } else { Some(0) },
    }
}

/// The machine-thermal pairing: the first unit declaring a `thermal:` model, with a note when
/// others are dropped or when there is none.
fn thermal_pairing(units: &Vec<DriveUnit>) -> (r: (Option<ThermalPairing>, Vec<String>))
    ensures
        thermal_matches(units@, r.0, r.1@),
{
    let mut notes: Vec<String> = Vec::new();
    let mut count: usize = 0;
    let mut first: Option<usize> = None;
    let mut i: usize = 0;
    while i < units.len()
        invariant
            0 <= i <= units.len(),
            count == thermal_count(units@, i as int),
            count <= i,
            match first {
                Some(f) => 0 <= f < i && units@[f as int].thermal is Some
                    && forall|k: int| 0 <= k < f ==> units@[k].thermal is None,
                None => forall|k: int| 0 <= k < i ==> units@[k].thermal is None,
            },
        decreases units.len() - i,
    {
        if units[i].thermal.is_some() {
            count = count + 1;
            if first.is_none() {
                first = Some(i);
            }
        }
        i = i + 1;
    }
    match first {
        Some(unit_idx) => {
            proof {
                let j = choose|j: int| 0 <= j < units@.len() && units@[j].thermal is Some
                    && forall|k: int| 0 <= k < j ==> units@[k].thermal is None;
                if j < unit_idx {
                    assert(units@[j].thermal is None);
                } else if unit_idx < j {
                    assert(units@[unit_idx as int].thermal is None);
                }
                assert(first_thermal_unit(units@) == Some(unit_idx as int));
            }
            if count > 1 {
                let mut note = String::new();
                push_decimal(&mut note, count);
                note.append(" drive units declare `.emotor` thermal models — the QSS coupling marches ONE network (unit ");
                push_decimal(&mut note, unit_idx);
                note.append("); the aggregate powertrain loss heats it and the others are not integrated this milestone");
                notes.push(note);
            }
            let unit = &units[unit_idx];
            let emotor_path = match &unit.thermal {
                Some(t) => t.clone(),
                None => String::new(),
            };
            (Some(ThermalPairing { unit_idx, emotor_path, ptm_path: unit.source.clone() }), notes)
        },
        None => {
            notes.push(String::from_str(
                "battery present with no `.emotor` drive-unit thermal model — the pack marches without a machine-thermal network (no thermal derate)",
            ));
            (None, notes)
        },
    }
}

/// Decide the slow-stack plan for a resolved vehicle. Pure — no IO.
pub fn plan_slow_stack(spec: &Vehicle) -> (r: SlowStackPlan)
    ensures
        plan_matches(*spec, r),
{
    match relevant_battery(spec) {
        None => SlowStackPlan::NoBattery,
        Some(batt) => {
            let (thermal, notes) = thermal_pairing(&spec.drivetrain.units);
            SlowStackPlan::Pack { battery_path: spec.batteries[batt].params.clone(), thermal, notes }
        },
    }
}

/// A car marches a pack exactly when its `batteries:` map is non-empty: no entry means no stack, and
/// any entry means some pack marches.
pub proof fn lemma_pack_marches_iff_batteries(spec: Vehicle)
    ensures
        spec_relevant_battery(spec) is None <==> spec.batteries@.len() == 0,
{
    if spec.batteries@.len() == 0 {
        if let Some(id) = spec_pack_id(spec) {
            assert(!(exists|i: int| 0 <= i < spec.batteries@.len() && spec.batteries@[i].id@ == id));
        }
    }
}

/// A single-pack car always marches its one pack, whatever the policy or the units name.
pub proof fn lemma_single_pack_is_the_pack(spec: Vehicle)
    requires
        spec.batteries@.len() == 1,
    ensures
        spec_relevant_battery(spec) == Some(0int),
{
    if let Some(id) = spec_pack_id(spec) {
        if let Some(b) = battery_entry(spec.batteries@, id) {
            assert(0 <= b < 1);
        }
    }
}

} // verus!
