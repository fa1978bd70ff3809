use outlap_qss::error::{QssError, T0Error, T1Error};
use outlap_qss::qss::{
    carry, check_couplings, from_t0, from_t1, lap_notes, manager_note, profile_plan,
    stint_lap_solver, thermal_not_marched_note, tier_not_implemented, CouplingSet, LapNote,
    LapSolver, Tier, OUTER_ITERS, OUTER_ITERS_ERS,
};

fn set(electro: bool, active: bool, thermal: bool, ers: bool, tire: bool, fuel: bool) -> CouplingSet {
    CouplingSet {
        electro,
        electro_active: active,
        electro_thermal: thermal,
        ers,
        tire,
        fuel,
    }
}

#[test]
fn transient_tiers_are_not_implemented() {
    assert_eq!(
        tier_not_implemented(Tier::T2),
        QssError::TierNotImplemented { tier: "t2", milestone: "M4" }
    );
    assert_eq!(
        tier_not_implemented(Tier::T3),
        QssError::TierNotImplemented { tier: "t3", milestone: "M6" }
    );
}

#[test]
fn stint_laps_pick_their_solver_by_tier() {
    assert_eq!(stint_lap_solver(Tier::T0), LapSolver::PointMass);
    assert_eq!(stint_lap_solver(Tier::T1), LapSolver::Retrim);
}

#[test]
fn manager_without_pack_is_rejected() {
    assert_eq!(
        check_couplings(set(false, false, false, true, false, false)),
        Err(QssError::ErsCouplingWithoutPack)
    );
    assert_eq!(check_couplings(set(true, false, false, true, false, false)), Ok(()));
    assert_eq!(check_couplings(set(false, false, false, false, true, true)), Ok(()));
}

#[test]
fn no_coupling_is_the_uncoupled_solve() {
    let p = profile_plan(set(false, false, false, false, false, false));
    assert!(p.uncoupled);
    assert!(!p.march_electro && !p.march_tire && !p.march_fuel);
    assert!(!p.feed_deploy && !p.machine_temp_channel && !p.ers_log);
}

#[test]
fn inactive_electro_stack_is_skipped() {
    let p = profile_plan(set(true, false, true, false, false, false));
    assert!(p.uncoupled);
    assert!(!p.march_electro);
}

#[test]
fn mapped_ev_marches_and_reports_the_winding() {
    let p = profile_plan(set(true, true, true, false, false, false));
    assert!(!p.uncoupled);
    assert!(p.march_electro);
    assert_eq!(p.iterations, OUTER_ITERS);
    assert_eq!(OUTER_ITERS, 2);
    assert!(p.machine_temp_channel);
    assert!(!p.feed_deploy && !p.ers_log);
}

#[test]
fn manager_lap_iterates_longer_and_feeds_the_deploy() {
    let p = profile_plan(set(true, false, true, true, false, true));
    assert!(p.march_electro);
    assert!(p.march_fuel);
    assert_eq!(p.iterations, OUTER_ITERS_ERS);
    assert_eq!(OUTER_ITERS_ERS, 8);
    assert!(p.feed_deploy && p.ers_log);
    assert!(!p.machine_temp_channel);
}

#[test]
fn tyre_march_alone_couples_the_lap() {
    let p = profile_plan(set(false, false, false, false, true, false));
    assert!(!p.uncoupled);
    assert!(p.march_tire);
    assert!(!p.march_electro);
}

#[test]
fn no_manager_means_no_lap_notes() {
    assert!(lap_notes(set(true, true, true, false, true, true), true, true).is_empty());
}

#[test]
fn manager_lap_notes_in_order() {
    assert_eq!(
        lap_notes(set(true, false, true, true, false, false), true, true),
        vec![
            LapNote::ManagerActive,
            LapNote::LapEnergy,
            LapNote::ThermalNotMarched,
            LapNote::Convergence
        ]
    );
    assert_eq!(
        lap_notes(set(true, false, false, true, false, false), false, false),
        vec![LapNote::ManagerActive]
    );
}

#[test]
fn manager_note_renders_the_flags() {
    assert_eq!(
        manager_note(true, false),
        "2026 ERS energy manager active: deploy curve + per-lap Recharge budget enforced, recharge phases on, override off"
    );
    assert_eq!(
        manager_note(false, true),
        "2026 ERS energy manager active: deploy curve + per-lap Recharge budget enforced, recharge phases off, override active"
    );
    assert!(thermal_not_marched_note().starts_with("machine-thermal network present but NOT marched"));
}

#[test]
fn carry_prefers_the_terminal_and_never_resets() {
    assert_eq!(carry(Some(3), Some(1)), Some(3));
    assert_eq!(carry(None, Some(1)), Some(1));
    assert_eq!(carry::<i32>(None, None), None);
    assert_eq!(carry(Some(7), None), Some(7));
}

#[test]
fn stint_carry_is_the_latest_terminal() {
    let terminals = [Some(10.0), None, Some(8.5), None, None];
    let mut seed = Some(12.0);
    let mut seeds = Vec::new();
    for t in terminals {
        seed = carry(t, seed);
        seeds.push(seed);
    }
    assert_eq!(seeds, vec![Some(10.0), Some(10.0), Some(8.5), Some(8.5), Some(8.5)]);
}

#[test]
fn lap_errors_wrap_their_tier_error() {
    assert_eq!(from_t0(T0Error::NoDrive), QssError::T0(T0Error::NoDrive));
    assert_eq!(
        from_t1(T1Error::NoConstantAero),
        QssError::T1(T1Error::NoConstantAero)
    );
}
