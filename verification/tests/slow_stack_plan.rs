use outlap_qss::drivetrain::{BatteryEntry, DriveUnit, Drivetrain, Policy, Vehicle, Wheel};
use outlap_qss::stack::{plan_slow_stack, SlowStackPlan, ThermalPairing};

fn unit(id: &str, battery: Option<&str>, thermal: Option<&str>) -> DriveUnit {
    DriveUnit {
        id: id.to_owned(),
        source: format!("{id}.ptm"),
        path: vec![],
        wheels: vec![Wheel::Rl, Wheel::Rr],
        output: None,
        battery: battery.map(str::to_owned),
        thermal: thermal.map(str::to_owned),
    }
}

fn pack(id: &str) -> BatteryEntry {
    BatteryEntry {
        id: id.to_owned(),
        params: format!("{id}.battery.json"),
    }
}

fn vehicle(units: Vec<DriveUnit>, batteries: Vec<BatteryEntry>, governs: Option<&str>) -> Vehicle {
    Vehicle {
        drivetrain: Drivetrain { units, couplers: vec![] },
        policy: governs.map(|g| Policy { governs: vec![g.to_owned()] }),
        batteries,
    }
}

const NO_THERMAL: &str = "battery present with no `.emotor` drive-unit thermal model — the pack marches without a machine-thermal network (no thermal derate)";

#[test]
fn no_battery_means_no_stack() {
    let v = vehicle(vec![unit("ice", None, Some("ice.emotor"))], vec![], None);
    assert_eq!(plan_slow_stack(&v), SlowStackPlan::NoBattery);
}

#[test]
fn single_pack_marches_without_thermal() {
    let v = vehicle(vec![unit("ev", Some("main"), None)], vec![pack("main")], None);
    assert_eq!(
        plan_slow_stack(&v),
        SlowStackPlan::Pack {
            battery_path: "main.battery.json".to_owned(),
            thermal: None,
            notes: vec![NO_THERMAL.to_owned()],
        }
    );
}

#[test]
fn governed_machine_names_the_pack() {
    let v = vehicle(
        vec![unit("aux", Some("a"), None), unit("mguk", Some("b"), None)],
        vec![pack("a"), pack("b")],
        Some("mguk"),
    );
    match plan_slow_stack(&v) {
        SlowStackPlan::Pack { battery_path, .. } => assert_eq!(battery_path, "b.battery.json"),
        other => panic!("expected a pack, got {other:?}"),
    }
}

#[test]
fn first_electric_unit_names_the_pack_without_a_policy() {
    let v = vehicle(
        vec![unit("ice", None, None), unit("front", Some("b"), None), unit("rear", Some("a"), None)],
        vec![pack("a"), pack("b")],
        None,
    );
    match plan_slow_stack(&v) {
        SlowStackPlan::Pack { battery_path, .. } => assert_eq!(battery_path, "b.battery.json"),
        other => panic!("expected a pack, got {other:?}"),
    }
}

#[test]
fn unknown_pack_id_falls_back_to_the_first_entry() {
    let v = vehicle(vec![unit("ev", Some("nope"), None)], vec![pack("a"), pack("b")], None);
    match plan_slow_stack(&v) {
        SlowStackPlan::Pack { battery_path, .. } => assert_eq!(battery_path, "a.battery.json"),
        other => panic!("expected a pack, got {other:?}"),
    }
}

#[test]
fn first_thermal_unit_is_paired_and_extras_noted() {
    let v = vehicle(
        vec![
            unit("ice", None, None),
            unit("front", Some("main"), Some("front.emotor")),
            unit("rear", Some("main"), Some("rear.emotor")),
        ],
        vec![pack("main")],
        None,
    );
    assert_eq!(
        plan_slow_stack(&v),
        SlowStackPlan::Pack {
            battery_path: "main.battery.json".to_owned(),
            thermal: Some(ThermalPairing {
                unit_idx: 1,
                emotor_path: "front.emotor".to_owned(),
                ptm_path: "front.ptm".to_owned(),
            }),
            notes: vec![
                "2 drive units declare `.emotor` thermal models — the QSS coupling marches ONE network (unit 1); the aggregate powertrain loss heats it and the others are not integrated this milestone".to_owned()
            ],
        }
    );
}

#[test]
fn single_thermal_unit_adds_no_note() {
    let v = vehicle(vec![unit("ev", Some("main"), Some("ev.emotor"))], vec![pack("main")], None);
    match plan_slow_stack(&v) {
        SlowStackPlan::Pack { thermal, notes, .. } => {
            assert_eq!(thermal.map(|t| t.unit_idx), Some(0));
            assert!(notes.is_empty());
        }
        other => panic!("expected a pack, got {other:?}"),
    }
}
