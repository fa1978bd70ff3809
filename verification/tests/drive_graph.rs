use outlap_qss::drivetrain::{
    axle_pair, driven_mask, mask_radius_choice, wheel_index, wheel_mask, wheels_radius_choice,
    CouplerEdge, CouplerKind, DriveUnit, DrivenRadius, Drivetrain, Policy, Vehicle, Wheel,
};
use outlap_qss::graph::{flatten_chain, governed_unit_ids, ChainLink};

fn unit(id: &str, path: Vec<CouplerKind>, wheels: Vec<Wheel>, output: Option<&str>) -> DriveUnit {
    DriveUnit {
        id: id.to_owned(),
        source: format!("{id}.ptm"),
        path,
        wheels,
        output: output.map(str::to_owned),
        battery: None,
        thermal: None,
    }
}

fn edge(from: &str, to: Option<&str>, coupler: CouplerKind, wheels: Vec<Wheel>) -> CouplerEdge {
    CouplerEdge {
        from: from.to_owned(),
        to: to.map(str::to_owned),
        coupler,
        wheels,
    }
}

#[test]
fn wheel_channels() {
    assert_eq!(
        [Wheel::Fl, Wheel::Fr, Wheel::Rl, Wheel::Rr].map(wheel_index),
        [0, 1, 2, 3]
    );
}

#[test]
fn wheels_sugar_flattens_to_the_private_path() {
    let dt = Drivetrain {
        units: vec![unit("ev", vec![CouplerKind::FixedRatio, CouplerKind::Diff], vec![Wheel::Rl, Wheel::Rr], None)],
        couplers: vec![],
    };
    let (chain, wheels) = flatten_chain(&dt, &dt.units[0]);
    assert_eq!(chain, vec![ChainLink::Path(0), ChainLink::Path(1)]);
    assert_eq!(wheels, vec![Wheel::Rl, Wheel::Rr]);
}

#[test]
fn shared_graph_is_walked_from_the_output_node() {
    let gb = CouplerKind::Gearbox { map_efficiency: false };
    let dt = Drivetrain {
        units: vec![unit("ice", vec![CouplerKind::FixedRatio], vec![], Some("crank"))],
        couplers: vec![
            edge("axle", None, CouplerKind::Diff, vec![Wheel::Rl, Wheel::Rr]),
            edge("crank", Some("axle"), gb, vec![]),
            edge("elsewhere", None, CouplerKind::Diff, vec![Wheel::Fl]),
        ],
    };
    let (chain, wheels) = flatten_chain(&dt, &dt.units[0]);
    assert_eq!(chain, vec![ChainLink::Path(0), ChainLink::Edge(1), ChainLink::Edge(0)]);
    assert_eq!(wheels, vec![Wheel::Rl, Wheel::Rr]);
}

#[test]
fn a_shared_node_is_expanded_once() {
    // Two couplers from the crank reach the same axle node: its diff appears once.
    let dt = Drivetrain {
        units: vec![unit("ice", vec![], vec![], Some("crank"))],
        couplers: vec![
            edge("crank", Some("axle"), CouplerKind::FixedRatio, vec![]),
            edge("crank", Some("axle"), CouplerKind::FixedRatio, vec![]),
            edge("axle", None, CouplerKind::Diff, vec![Wheel::Rl, Wheel::Rr]),
        ],
    };
    let (chain, wheels) = flatten_chain(&dt, &dt.units[0]);
    assert_eq!(chain, vec![ChainLink::Edge(0), ChainLink::Edge(1), ChainLink::Edge(2)]);
    assert_eq!(wheels, vec![Wheel::Rl, Wheel::Rr]);
}

#[test]
fn a_cycle_terminates() {
    let dt = Drivetrain {
        units: vec![unit("m", vec![], vec![], Some("a"))],
        couplers: vec![
            edge("a", Some("b"), CouplerKind::FixedRatio, vec![]),
            edge("b", Some("a"), CouplerKind::FixedRatio, vec![Wheel::Fl]),
        ],
    };
    let (chain, wheels) = flatten_chain(&dt, &dt.units[0]);
    assert_eq!(chain, vec![ChainLink::Edge(0), ChainLink::Edge(1)]);
    assert_eq!(wheels, vec![Wheel::Fl]);
}

#[test]
fn governed_ids_are_listed_once() {
    let v = Vehicle {
        drivetrain: Drivetrain { units: vec![], couplers: vec![] },
        policy: Some(Policy {
            governs: vec!["mguk".to_owned(), "front".to_owned(), "mguk".to_owned()],
        }),
        batteries: vec![],
    };
    assert_eq!(governed_unit_ids(&v), vec!["mguk".to_owned(), "front".to_owned()]);
    let none = Vehicle { policy: None, ..v };
    assert!(governed_unit_ids(&none).is_empty());
}

#[test]
fn no_declared_wheels_defaults_to_all_four() {
    let units = vec![unit("a", vec![], vec![], Some("n")), unit("b", vec![], vec![], None)];
    assert_eq!(driven_mask(&units), ([true; 4], true));
}

#[test]
fn declared_wheels_form_the_mask() {
    let units = vec![
        unit("a", vec![], vec![Wheel::Rr], None),
        unit("b", vec![], vec![Wheel::Fl, Wheel::Rr], None),
    ];
    assert_eq!(driven_mask(&units), ([true, false, false, true], false));
    assert_eq!(wheel_mask(&vec![Wheel::Fr, Wheel::Fr]), [false, true, false, false]);
}

#[test]
fn axle_pairs() {
    assert_eq!(axle_pair([true, true, false, false]), Some((0, 1)));
    assert_eq!(axle_pair([false, false, true, true]), Some((2, 3)));
    assert_eq!(axle_pair([true, true, true, true]), None);
    assert_eq!(axle_pair([true, false, false, false]), None);
}

#[test]
fn radius_choice() {
    assert_eq!(wheels_radius_choice(&vec![Wheel::Fl, Wheel::Fr]), DrivenRadius::Front);
    assert_eq!(wheels_radius_choice(&vec![Wheel::Fl, Wheel::Rr]), DrivenRadius::Mean);
    assert_eq!(wheels_radius_choice(&vec![Wheel::Rl]), DrivenRadius::Rear);
    assert_eq!(wheels_radius_choice(&vec![]), DrivenRadius::Rear);
    assert_eq!(mask_radius_choice([false; 4]), DrivenRadius::Rear);
    assert_eq!(mask_radius_choice([true; 4]), DrivenRadius::Mean);
    assert_eq!(mask_radius_choice([false, true, false, false]), DrivenRadius::Front);
}

#[test]
fn wheel_channel_names_follow_the_index() {
    let names = outlap_qss::drivetrain::WHEEL_ORDER;
    assert_eq!(names, ["FL", "FR", "RL", "RR"]);
    assert_eq!(names[wheel_index(Wheel::Rl)], "RL");
}
