//! The decisions of the QSS lap and stint drivers: the tier dispatch, the coupling-bundle check,
//! which slow states a lap marches and how many outer iterations it runs, which notes a lap
//! reports, and how a stint carries the terminal slow state of one lap into the seed of the next.
//!
//! The velocity passes and the slow-state marches themselves run in the caller; this module decides
//! what they run on.
use vstd::prelude::*;
use crate::error::{QssError, T0Error, T1Error};

verus! {

/// Outer iterations of the slow-state coupling without an energy manager.
pub const OUTER_ITERS: usize = 2;

/// Outer iterations of the slow-state coupling under an energy manager (the deploy schedule
/// reshapes the profile it was decided on, so the fixed point needs more passes).
pub const OUTER_ITERS_ERS: usize = 8;

/// The solver tier a `sim.yaml` selects.
#[derive(Clone, Copy, Debug, PartialEq, Eq, Structural)]
pub enum Tier {
    /// Point-mass on the g-g-g-v envelope.
    T0,
    /// Full QSS with per-wheel outputs.
    T1,
    /// Transient (not implemented yet).
    T2,
    /// Transient (not implemented yet).
    T3,
}

/// The typed "not implemented" error for a transient tier: `t2` ships in milestone M4, anything
/// else in M6.
pub open spec fn spec_tier_not_implemented(tier: Tier) -> QssError {
    match tier {
        Tier::T2 => QssError::TierNotImplemented { tier: "t2", milestone: "M4" },
        _ => QssError::TierNotImplemented { tier: "t3", milestone: "M6" },
    }
}

/// The typed "not implemented" error for the transient tiers (`t2` / `t3`), for the dispatch site.
pub fn tier_not_implemented(tier: Tier) -> (r: QssError)
    ensures
        r == spec_tier_not_implemented(tier),
{
    match tier {
        Tier::T2 => QssError::TierNotImplemented { tier: "t2", milestone: "M4" },
        _ => QssError::TierNotImplemented { tier: "t3", milestone: "M6" },
    }
}

/// Which lap solver runs a stint lap.
#[derive(Clone, Copy, Debug, PartialEq, Eq, Structural)]
pub enum LapSolver {
    /// The point-mass lap (`solve_t0`).
    PointMass,
    /// The point-mass profile plus the per-station re-trim (`solve_t1`).
    Retrim,
}

/// A stint runs its laps with the point-mass solver on tier `t0` and with the re-trim otherwise.
pub fn stint_lap_solver(tier: Tier) -> (r: LapSolver)
    ensures
        r == (if tier == Tier::T0 { LapSolver::PointMass } else { LapSolver::Retrim }),
{
    if tier == Tier::T0 { LapSolver::PointMass } else { LapSolver::Retrim }
}

/// Which couplings a lap was handed.
#[derive(Clone, Copy, Debug, PartialEq, Eq, Structural)]
pub struct CouplingSet {
    /// The electro slow stack (battery pack, optional machine thermal) is present.
    pub electro: bool,
    /// The electro stack's assembly-time activity flag (installed energy maps).
    pub electro_active: bool,
    /// The electro stack carries a machine-thermal network.
    pub electro_thermal: bool,
    /// The 2026 ERS energy manager is present.
    pub ers: bool,
    /// The representative-tyre thermal march is present.
    pub tire: bool,
    /// The fuel-mass slow state is present.
    pub fuel: bool,
}

/// The coupling bundle is consistent: the energy manager needs a pack to schedule.
pub fn check_couplings(c: CouplingSet) -> (r: Result<(), QssError>)
    ensures
        (c.ers && !c.electro) ==> r == Err::<(), QssError>(QssError::ErsCouplingWithoutPack),
        !(c.ers && !c.electro) ==> r is Ok,
{
    if c.ers && !c.electro {
        return Err(QssError::ErsCouplingWithoutPack);
    }
    Ok(())
}

/// What a lap's velocity-profile solve marches.
#[derive(Clone, Copy, Debug, PartialEq, Eq, Structural)]
pub struct ProfilePlan {
    /// No slow state can move: one uncoupled solve, no marches.
    pub uncoupled: bool,
    /// The electro stack (pack, machine thermal, ERS schedule) is marched.
    pub march_electro: bool,
    /// The tyre-thermal march runs.
    pub march_tire: bool,
    /// The fuel-mass march runs.
    pub march_fuel: bool,
    /// Outer iterations after the uncoupled seed solve.
    pub iterations: usize,
    /// The (under-relaxed) ERS deploy-force slice is fed to the coupled solve.
    pub feed_deploy: bool,
    /// The lap reports a machine-temperature channel.
    pub machine_temp_channel: bool,
    /// The lap reports the ERS deploy/harvest log.
    pub ers_log: bool,
}

/// The profile plan for a coupling set.
pub open spec fn spec_profile_plan(c: CouplingSet) -> ProfilePlan {
    let electro = c.electro && (c.electro_active || c.ers);
    ProfilePlan {
        uncoupled: !electro && !c.tire && !c.fuel,
        march_electro: electro,
        march_tire: c.tire,
        march_fuel: c.fuel,
        iterations: if c.ers { OUTER_ITERS_ERS } else { OUTER_ITERS },
        feed_deploy: c.ers && electro,
        machine_temp_channel: electro && !c.ers && c.electro_thermal,
        ers_log: electro && c.ers,
    }
}

/// Decide what a lap's profile solve marches. An inactive electro stack (no energy maps and no
/// manager) cannot move a slow state and is skipped; with nothing to march the lap is the
/// uncoupled solve. The machine-thermal network is not marched under an energy manager, so its
/// channel is reported only without one.
pub fn profile_plan(c: CouplingSet) -> (r: ProfilePlan)
    ensures
        r == spec_profile_plan(c),
        r.march_tire == c.tire,
        r.march_fuel == c.fuel,
        r.march_electro == (c.electro && (c.electro_active || c.ers)),
        r.uncoupled == (!r.march_electro && !c.tire && !c.fuel),
{
    proof { lemma_profile_plan_fields(c); }
    let electro = c.electro && (c.electro_active || c.ers);
    ProfilePlan {
        uncoupled: !electro && !c.tire && !c.fuel,
        march_electro: electro,
        march_tire: c.tire,
        march_fuel: c.fuel,
        iterations: if c.ers { OUTER_ITERS_ERS } else { OUTER_ITERS },
        feed_deploy: c.ers && electro,
        machine_temp_channel: electro && !c.ers && c.electro_thermal,
        ers_log: electro && c.ers,
    }
}

/// What each coupling makes a lap march, field by field in terms of the couplings alone: the tyre
/// march runs exactly when a tyre coupling is present and the fuel march exactly when a fuel
/// coupling is, whatever else is coupled; the electro stack marches when present and either active
/// or managed; the lap is uncoupled exactly when nothing marches; a managed lap runs 8 outer
/// iterations and any other 2; the deploy slice and the ERS log exist exactly on a managed electro
/// march, the winding channel exactly on an unmanaged electro march with a thermal network.
pub proof fn lemma_profile_plan_fields(c: CouplingSet)
    ensures
        spec_profile_plan(c).march_tire == c.tire,
        spec_profile_plan(c).march_fuel == c.fuel,
        spec_profile_plan(c).march_electro == (c.electro && (c.electro_active || c.ers)),
        spec_profile_plan(c).uncoupled == (!spec_profile_plan(c).march_electro && !c.tire && !c.fuel),
        spec_profile_plan(c).iterations == (if c.ers { 8usize } else { 2usize }),
        spec_profile_plan(c).feed_deploy == (c.ers && c.electro),
        spec_profile_plan(c).ers_log == (c.ers && c.electro),
        spec_profile_plan(c).machine_temp_channel == (c.electro && c.electro_active && !c.ers && c.electro_thermal),
{
}

/// The tyre march of a lap depends on the tyre coupling alone: two coupling sets that agree on it
/// agree on whether the tyre march runs (likewise for the fuel march).
pub proof fn lemma_tire_and_fuel_marches_independent(c1: CouplingSet, c2: CouplingSet)
    ensures
        c1.tire == c2.tire ==> spec_profile_plan(c1).march_tire == spec_profile_plan(c2).march_tire,
        c1.fuel == c2.fuel ==> spec_profile_plan(c1).march_fuel == spec_profile_plan(c2).march_fuel,
{
    lemma_profile_plan_fields(c1);
    lemma_profile_plan_fields(c2);
}

/// A lap with no coupling at all is exactly the uncoupled solve, and a lap the plan calls
/// uncoupled marches nothing and reports no slow channel.
pub proof fn lemma_uncoupled_marches_nothing(c: CouplingSet)
    ensures
        (!c.electro && !c.tire && !c.fuel) ==> spec_profile_plan(c).uncoupled,
        spec_profile_plan(c).uncoupled ==> {
            let p = spec_profile_plan(c);
            !p.march_electro && !p.march_tire && !p.march_fuel && !p.feed_deploy
                && !p.machine_temp_channel && !p.ers_log
        },
{
}

/// The notes a lap appends to its assembly notes.
#[derive(Clone, Copy, Debug, PartialEq, Eq, Structural)]
pub enum LapNote {
    /// The energy manager is active (with its recharge/override flags).
    ManagerActive,
    /// The lap's deployed/harvested energy and SoC swing.
    LapEnergy,
    /// A machine-thermal network was present but not marched under the manager.
    ThermalNotMarched,
    /// The outer-iteration convergence residuals.
    Convergence,
}

/// The notes for a lap, in order: none without an energy manager; with one, the manager note, the
/// lap-energy note when an ERS log was recorded, the thermal-skip note when the electro stack
/// carries a machine-thermal network, and the convergence note when a slow log was recorded.
pub open spec fn spec_lap_notes(c: CouplingSet, has_slow: bool, has_ers_log: bool) -> Seq<LapNote> {
    if !c.ers {
        Seq::empty()
    } else {
        seq![LapNote::ManagerActive]
            + (if has_ers_log { seq![LapNote::LapEnergy] } else { Seq::empty() })
            + (if c.electro && c.electro_thermal { seq![LapNote::ThermalNotMarched] } else { Seq::empty() })
            + (if has_slow { seq![LapNote::Convergence] } else { Seq::empty() })
    }
}

/// Which notes a lap appends, in order (see [`spec_lap_notes`]).
pub fn lap_notes(c: CouplingSet, has_slow: bool, has_ers_log: bool) -> (r: Vec<LapNote>)
    ensures
        r@ == spec_lap_notes(c, has_slow, has_ers_log),
{
    let mut out: Vec<LapNote> = Vec::new();
    if c.ers {
        out.push(LapNote::ManagerActive);
        if has_ers_log {
            out.push(LapNote::LapEnergy);
        }
        if c.electro && c.electro_thermal {
            out.push(LapNote::ThermalNotMarched);
        }
        if has_slow {
            out.push(LapNote::Convergence);
        }
    }
    proof {
        assert(out@ =~= spec_lap_notes(c, has_slow, has_ers_log));
    }
    out
}

/// The energy-manager note: the deploy curve and Recharge budget are enforced, with the recharge
/// phases and the override flags rendered `on`/`off` and `active`/`off`.
pub open spec fn manager_msg(recharge_phases: bool, override_active: bool) -> Seq<char> {
    "2026 ERS energy manager active: deploy curve + per-lap Recharge budget enforced, recharge phases "@
        + (if recharge_phases { "on"@ } else { "off"@ })
        + ", override "@
        + (if override_active { "active"@ } else { "off"@ })
}

/// The energy-manager note of a lap.
pub fn manager_note(recharge_phases: bool, override_active: bool) -> (m: String)
    ensures
        m@ == manager_msg(recharge_phases, override_active),
{
    let mut m = String::new();
    m.append("2026 ERS energy manager active: deploy curve + per-lap Recharge budget enforced, recharge phases ");
    if recharge_phases {
        m.append("on");
    } else {
        m.append("off");
    }
    m.append(", override ");
    if override_active {
        m.append("active");
    } else {
        m.append("off");
    }
    m
}

/// The note recorded when a manager-governed lap skips the machine-thermal network.
pub open spec fn thermal_not_marched_msg() -> Seq<char> {
    "machine-thermal network present but NOT marched under the energy manager (M6 PR2: the caps apply to the electric share) — no winding-temperature channel is reported for this lap"@
}

/// The note recorded when a manager-governed lap skips the machine-thermal network.
pub fn thermal_not_marched_note() -> (m: String)
    ensures
        m@ == thermal_not_marched_msg(),
{
    String::from_str(
        "machine-thermal network present but NOT marched under the energy manager (M6 PR2: the caps apply to the electric share) — no winding-temperature channel is reported for this lap",
    )
}

/// The next lap's seed for one slow state: the lap's terminal state when it produced one, else the
/// prior seed (a subsystem absent this lap never resets the carry).
pub fn carry<T>(terminal: Option<T>, seed: Option<T>) -> (r: Option<T>)
    ensures
        r == (match terminal {
            Some(t) => Some(t),
            None => seed,
        }),
{
    match terminal {
        Some(t) => Some(t),
        None => seed,
    }
}

/// The seed after a run of laps whose terminal states were `terminals`, starting from `seed`.
pub open spec fn seed_after<T>(seed: Option<T>, terminals: Seq<Option<T>>) -> Option<T>
    decreases terminals.len(),
{
    if terminals.len() == 0 {
        seed
    } else {
        match terminals.last() {
            Some(t) => Some(t),
            None => seed_after(seed, terminals.drop_last()),
        }
    }
}

/// The most recent lap (index into `terminals`) that produced a terminal state.
pub open spec fn last_produced<T>(terminals: Seq<Option<T>>) -> Option<int>
    decreases terminals.len(),
{
    if terminals.len() == 0 {
        None
    } else if terminals.last() is Some {
        Some(terminals.len() - 1)
    } else {
        last_produced(terminals.drop_last())
    }
}

/// `last_produced` is the last lap with a terminal state.
pub proof fn lemma_last_produced<T>(terminals: Seq<Option<T>>)
    ensures
        match last_produced(terminals) {
            Some(k) => 0 <= k < terminals.len() && terminals[k] is Some
                && forall|j: int| k < j < terminals.len() ==> #[trigger] terminals[j] is None,
            None => forall|j: int| 0 <= j < terminals.len() ==> #[trigger] terminals[j] is None,
        },
    decreases terminals.len(),
{
    if terminals.len() > 0 {
        let init = terminals.drop_last();
        lemma_last_produced(init);
        assert forall|j: int| 0 <= j < init.len() implies init[j] == terminals[j] by {}
    }
}

/// A stint's carry: after any run of laps the seed is the terminal state of the most recent lap
/// that produced one, or the stint's initial seed when none did; in particular a seed once present
/// is never lost.
pub proof fn lemma_carry_is_latest_terminal<T>(seed: Option<T>, terminals: Seq<Option<T>>)
    ensures
        seed_after(seed, terminals) == (match last_produced(terminals) {
            Some(k) => terminals[k],
            None => seed,
        }),
        seed is Some ==> seed_after(seed, terminals) is Some,
    decreases terminals.len(),
{
    if terminals.len() > 0 {
        let init = terminals.drop_last();
        lemma_carry_is_latest_terminal(seed, init);
        lemma_last_produced(init);
        if terminals.last() is None {
            match last_produced(init) {
                Some(k) => {
                    assert(init[k] == terminals[k]);
                },
                None => {},
            }
        }
    }
    lemma_last_produced(terminals);
}

/// The error a lap's velocity-profile failure surfaces as.
pub fn from_t0(e: T0Error) -> (r: QssError)
    ensures
        r == QssError::T0(e),
{
    QssError::T0(e)
}

/// The error a lap's trim/envelope failure surfaces as.
pub fn from_t1(e: T1Error) -> (r: QssError)
    ensures
        r == QssError::T1(e),
{
    QssError::T1(e)
}

} // verus!
