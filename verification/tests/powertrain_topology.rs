use outlap_qss::drivetrain::{
    CouplerEdge, CouplerKind, DriveUnit, DrivenRadius, Drivetrain, Policy, Vehicle, Wheel,
};
use outlap_qss::error::{T0Error, T1Error};
use outlap_qss::graph::ChainLink;
use outlap_qss::powertrain::{
    axle_wheel_counts, ers_not_in_ceiling_note, has_vdc_axis, ice_regen_note, map_axis_names,
    map_axis_names_vdc, map_extrapolation, map_installed_note, regen_envelope,
    symmetric_regen_note, AxisExtrapolation, RegenEnvelope,
    chain_kinds, check_drive_unit, first_diff, fold_plan, fold_plan_t0, governed_machine,
    map_efficiency_note, mechanical_driven_axles, mechanical_units, multiple_gearboxes_note,
    plan_t0_unit, plan_t1_unit, primary_diff_unit, primary_gear_count, primary_geared_unit,
    reference_source, require_drive, single_gearbox, GearboxSite,
};

const GB: CouplerKind = CouplerKind::Gearbox { map_efficiency: false };
const GB_MAP: CouplerKind = CouplerKind::Gearbox { map_efficiency: true };

fn unit(id: &str, path: Vec<CouplerKind>, wheels: Vec<Wheel>, output: Option<&str>) -> DriveUnit {
    DriveUnit {
        id: id.to_owned(),
        source: format!("{id}.ptm"),
        path,
        wheels,
        output: output.map(str::to_owned),
        battery: None,
        thermal: None,
    }
}

fn edge(from: &str, to: Option<&str>, coupler: CouplerKind, wheels: Vec<Wheel>) -> CouplerEdge {
    CouplerEdge {
        from: from.to_owned(),
        to: to.map(str::to_owned),
        coupler,
        wheels,
    }
}

fn vehicle(units: Vec<DriveUnit>, couplers: Vec<CouplerEdge>, governs: Option<Vec<&str>>) -> Vehicle {
    Vehicle {
        drivetrain: Drivetrain { units, couplers },
        policy: governs.map(|g| Policy {
            governs: g.into_iter().map(str::to_owned).collect(),
        }),
        batteries: Vec::new(),
    }
}

/// An f1-style hybrid: the ICE and the MGU-K both output onto the crank; the shared gearbox and
/// rear diff carry the torque to the rear wheels; the policy governs the MGU-K.
fn hybrid() -> Vehicle {
    vehicle(
        vec![
            unit("ice", vec![], vec![], Some("crank")),
            unit("mguk", vec![CouplerKind::FixedRatio], vec![], Some("crank")),
        ],
        vec![
            edge("crank", Some("axle"), GB, vec![]),
            edge("axle", None, CouplerKind::Diff, vec![Wheel::Rl, Wheel::Rr]),
        ],
        Some(vec!["mguk"]),
    )
}

#[test]
fn fold_takes_the_first_gearbox_and_folds_the_rest() {
    let path = vec![CouplerKind::FixedRatio, GB, CouplerKind::Diff, GB_MAP, CouplerKind::FixedRatio];
    let p = fold_plan(&path);
    assert_eq!(p.gearbox, Some(1));
    assert_eq!(p.folded_gearboxes, vec![3]);
    assert_eq!(p.fixed_ratios, vec![0, 4]);
    assert!(p.has_map_efficiency);
}

#[test]
fn direct_drive_folds_to_no_gearbox() {
    let p = fold_plan(&vec![CouplerKind::FixedRatio, CouplerKind::Diff]);
    assert_eq!(p.gearbox, None);
    assert!(p.folded_gearboxes.is_empty());
    assert_eq!(p.fixed_ratios, vec![0]);
    assert!(!p.has_map_efficiency);
}

#[test]
fn point_mass_fold_rejects_a_map_efficiency() {
    assert_eq!(
        fold_plan_t0(&vec![GB, GB_MAP], 2).unwrap_err(),
        T0Error::UnsupportedEfficiencyMap { unit: 2 }
    );
    let ok = fold_plan_t0(&vec![GB, CouplerKind::Diff], 2).unwrap();
    assert_eq!(ok.gearbox, Some(0));
}

#[test]
fn first_diff_is_the_torque_split() {
    assert_eq!(first_diff(&vec![GB, CouplerKind::Diff, CouplerKind::Diff]), Some(1));
    assert_eq!(first_diff(&vec![GB, CouplerKind::FixedRatio]), None);
}

#[test]
fn primary_geared_unit_is_the_last_with_most_gears() {
    assert_eq!(primary_geared_unit(&vec![1, 8, 8, 3]), Some(2));
    assert_eq!(primary_geared_unit(&vec![1, 1]), Some(1));
    assert_eq!(primary_geared_unit(&vec![]), None);
}

#[test]
fn primary_gear_count_is_at_least_one() {
    assert_eq!(primary_gear_count(&vec![]), 1);
    assert_eq!(primary_gear_count(&vec![0, 0]), 1);
    assert_eq!(primary_gear_count(&vec![1, 8, 3]), 8);
}

#[test]
fn primary_diff_is_the_first_clean_axle_pair() {
    assert_eq!(primary_diff_unit(&vec![None, Some((2, 3)), Some((0, 1))]), Some(1));
    assert_eq!(primary_diff_unit(&vec![None, None]), None);
}

#[test]
fn single_gearbox_ignores_the_governed_machine() {
    let v = vehicle(
        vec![
            unit("ice", vec![GB], vec![Wheel::Rl, Wheel::Rr], None),
            unit("mguk", vec![GB], vec![Wheel::Rl, Wheel::Rr], None),
        ],
        vec![],
        Some(vec!["mguk"]),
    );
    assert_eq!(single_gearbox(&v), Some(GearboxSite::UnitPath { unit: 0, position: 0 }));
}

#[test]
fn two_gearboxes_are_ambiguous() {
    let v = vehicle(
        vec![
            unit("ice", vec![GB], vec![Wheel::Rl, Wheel::Rr], None),
            unit("mguk", vec![GB], vec![Wheel::Rl, Wheel::Rr], None),
        ],
        vec![],
        None,
    );
    assert_eq!(single_gearbox(&v), None);
}

#[test]
fn shared_coupler_gearbox_counts() {
    assert_eq!(single_gearbox(&hybrid()), Some(GearboxSite::Coupler { edge: 0 }));
}

#[test]
fn map_efficiency_gearbox_gives_no_driveline_efficiency() {
    let v = vehicle(vec![unit("ice", vec![GB_MAP], vec![Wheel::Rl], None)], vec![], None);
    assert_eq!(single_gearbox(&v), None);
    let direct = vehicle(vec![unit("ev", vec![CouplerKind::FixedRatio], vec![Wheel::Rl], None)], vec![], None);
    assert_eq!(single_gearbox(&direct), None);
}

#[test]
fn reference_source_is_the_first_unit_on_the_node() {
    let nodes = vec![Some("aux".to_owned()), Some("crank".to_owned()), Some("crank".to_owned())];
    let gears = vec![1, 8, 8];
    assert_eq!(reference_source(&Some("crank".to_owned()), &nodes, &gears, 8), Some(1));
    assert_eq!(reference_source(&None, &nodes, &gears, 8), None);
    assert_eq!(reference_source(&Some("front".to_owned()), &nodes, &gears, 8), None);
}

#[test]
fn reference_source_needs_an_aligned_ladder() {
    // The first unit on the node decides; a later aligned one is not searched for.
    let nodes = vec![Some("crank".to_owned()), Some("crank".to_owned())];
    assert_eq!(reference_source(&Some("crank".to_owned()), &nodes, &vec![1, 8], 8), None);
}

#[test]
fn governed_machine_is_the_first_governed_id() {
    assert_eq!(governed_machine(&hybrid()), Some(1));
    let none = vehicle(vec![unit("ice", vec![], vec![Wheel::Rl], None)], vec![], None);
    assert_eq!(governed_machine(&none), None);
    let missing = vehicle(vec![unit("ice", vec![], vec![Wheel::Rl], None)], vec![], Some(vec!["k"]));
    assert_eq!(governed_machine(&missing), None);
    let empty = vehicle(vec![unit("ice", vec![], vec![Wheel::Rl], None)], vec![], Some(vec![]));
    assert_eq!(governed_machine(&empty), None);
}

#[test]
fn mechanical_units_leave_out_the_governed_machine() {
    assert_eq!(mechanical_units(&hybrid()), vec![0]);
    let ev = vehicle(
        vec![
            unit("front", vec![], vec![Wheel::Fl, Wheel::Fr], None),
            unit("rear", vec![], vec![Wheel::Rl, Wheel::Rr], None),
        ],
        vec![],
        None,
    );
    assert_eq!(mechanical_units(&ev), vec![0, 1]);
}

#[test]
fn mechanical_axles_come_from_the_flattened_chains() {
    assert_eq!(mechanical_driven_axles(&hybrid()), (false, true));
    let awd = vehicle(
        vec![
            unit("front", vec![], vec![Wheel::Fl, Wheel::Fr], None),
            unit("rear", vec![], vec![Wheel::Rl, Wheel::Rr], None),
        ],
        vec![],
        None,
    );
    assert_eq!(mechanical_driven_axles(&awd), (true, true));
    // A governed front machine does not count as a mechanical driver.
    let gov_front = vehicle(
        vec![
            unit("front", vec![], vec![Wheel::Fl, Wheel::Fr], None),
            unit("rear", vec![], vec![Wheel::Rl, Wheel::Rr], None),
        ],
        vec![],
        Some(vec!["front"]),
    );
    assert_eq!(mechanical_driven_axles(&gov_front), (false, true));
}

#[test]
fn chain_kinds_follow_the_links() {
    let v = hybrid();
    let kinds = chain_kinds(
        &v.drivetrain,
        &v.drivetrain.units[1],
        &vec![ChainLink::Path(0), ChainLink::Edge(0), ChainLink::Edge(1)],
    );
    assert_eq!(kinds, vec![CouplerKind::FixedRatio, GB, CouplerKind::Diff]);
}

#[test]
fn t0_unit_plan_flattens_and_folds_the_shared_chain() {
    let v = hybrid();
    let p = plan_t0_unit(&v.drivetrain, &v.drivetrain.units[0], 0).unwrap();
    assert_eq!(p.chain, vec![ChainLink::Edge(0), ChainLink::Edge(1)]);
    assert_eq!(p.kinds, vec![GB, CouplerKind::Diff]);
    assert_eq!(p.radius, DrivenRadius::Rear);
    assert_eq!(p.fold.gearbox, Some(0));
}

#[test]
fn t0_unit_plan_rejects_a_map_gearbox_on_the_shared_chain() {
    let v = vehicle(
        vec![unit("ice", vec![], vec![], Some("crank"))],
        vec![edge("crank", None, GB_MAP, vec![Wheel::Rl, Wheel::Rr])],
        None,
    );
    assert_eq!(
        plan_t0_unit(&v.drivetrain, &v.drivetrain.units[0], 4).unwrap_err(),
        T0Error::UnsupportedEfficiencyMap { unit: 4 }
    );
}

#[test]
fn t0_unit_plan_spanning_both_axles_uses_the_mean_radius() {
    let v = vehicle(
        vec![unit("awd", vec![GB, CouplerKind::Diff], vec![Wheel::Fl, Wheel::Rr], None)],
        vec![],
        None,
    );
    let p = plan_t0_unit(&v.drivetrain, &v.drivetrain.units[0], 0).unwrap();
    assert_eq!(p.radius, DrivenRadius::Mean);
    assert_eq!(p.chain, vec![ChainLink::Path(0), ChainLink::Path(1)]);
}

#[test]
fn t1_unit_plan_of_a_rear_drive_unit() {
    let u = unit(
        "ice",
        vec![GB_MAP, CouplerKind::Diff],
        vec![Wheel::Rl, Wheel::Rr],
        None,
    );
    let p = plan_t1_unit(&u);
    assert_eq!(p.driven, [false, false, true, true]);
    assert_eq!(p.radius, DrivenRadius::Rear);
    assert_eq!(p.fold.gearbox, Some(0));
    assert!(p.fold.has_map_efficiency);
    assert_eq!(p.diff, Some(1));
    assert_eq!(p.axle_pair, Some((2, 3)));
}

#[test]
fn t1_unit_plan_of_a_single_wheel_motor() {
    let p = plan_t1_unit(&unit("hub", vec![], vec![Wheel::Fl], None));
    assert_eq!(p.driven, [true, false, false, false]);
    assert_eq!(p.radius, DrivenRadius::Front);
    assert_eq!(p.diff, None);
    assert_eq!(p.axle_pair, None);
}

#[test]
fn no_drive_source_is_an_error() {
    assert_eq!(require_drive(0, false), Err(T0Error::NoDrive));
    assert_eq!(require_drive(0, true), Ok(()));
    assert_eq!(require_drive(2, false), Ok(()));
}

#[test]
fn map_install_must_name_a_drive_unit() {
    assert_eq!(check_drive_unit(1, 2), Ok(()));
    assert_eq!(check_drive_unit(2, 2), Err(T1Error::UnknownDriveUnit { unit: 2 }));
}

#[test]
fn fold_notes_name_the_unit() {
    assert_eq!(
        multiple_gearboxes_note(3),
        "drive unit 3 has multiple gearboxes; only the first provides gears"
    );
    assert_eq!(
        map_efficiency_note(12),
        "drive unit 12 gearbox uses a map efficiency; a constant proxy carries the traction force until the efficiency map is installed"
    );
}

#[test]
fn regen_split_counts_driven_wheels_per_axle() {
    assert_eq!(axle_wheel_counts([true, true, false, false]), (2, 0));
    assert_eq!(axle_wheel_counts([false, true, true, true]), (1, 2));
    assert_eq!(axle_wheel_counts([false; 4]), (0, 0));
}

#[test]
fn regen_envelope_sources() {
    assert_eq!(regen_envelope(true, true), RegenEnvelope::Zero);
    assert_eq!(regen_envelope(true, false), RegenEnvelope::Zero);
    assert_eq!(regen_envelope(false, true), RegenEnvelope::Declared);
    assert_eq!(regen_envelope(false, false), RegenEnvelope::Symmetric);
}

#[test]
fn regen_and_ers_notes() {
    assert_eq!(
        ice_regen_note(0),
        "drive unit 0 is an internal-combustion engine: it recovers no braking energy (regen envelope zero; overrun drag is not commandable regen)"
    );
    assert_eq!(
        symmetric_regen_note(2),
        "drive unit 2 declares no `max_regen_torque_nm_vs_speed`; its regen braking envelope is assumed symmetric with the drive envelope (estimated)"
    );
    assert!(ers_not_in_ceiling_note().starts_with("ERS/MGU-K deployment is NOT folded"));
}

#[test]
fn sidecar_axes_and_extrapolation() {
    assert_eq!(map_axis_names(), ["speed_rpm", "torque_nm"]);
    assert_eq!(map_axis_names_vdc(), ["speed_rpm", "torque_nm", "vdc_v"]);
    let names: Vec<String> = map_axis_names_vdc().iter().map(|s| (*s).to_owned()).collect();
    assert!(has_vdc_axis(&names));
    let flat: Vec<String> = map_axis_names().iter().map(|s| (*s).to_owned()).collect();
    assert!(!has_vdc_axis(&flat));
    assert_eq!(
        map_extrapolation(true),
        vec![AxisExtrapolation::Clamp, AxisExtrapolation::Clamp, AxisExtrapolation::Linear]
    );
    assert_eq!(map_extrapolation(false), vec![AxisExtrapolation::Clamp, AxisExtrapolation::Clamp]);
}

#[test]
fn map_install_notes() {
    assert_eq!(
        map_installed_note(1, false),
        "drive unit 1: efficiency/loss map installed — energy accounting is live"
    );
    assert_eq!(
        map_installed_note(0, true),
        "drive unit 0: efficiency/loss map installed — energy accounting is live (Vdc-coupled; linear extrapolation below/above the voltage grid)"
    );
}

#[test]
fn all_wheels_fallback_note() {
    assert_eq!(
        outlap_qss::drivetrain::all_wheels_note(),
        "no drive units declare wheels; T1 traction uses all four wheels"
    );
}
