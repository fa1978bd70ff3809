use outlap_qss::error::T1Error;
use outlap_qss::thermal::{
    conductance_pair, fluid_preset, has_capacity_heuristic, resolve_network, CapacitySource,
    ConductanceDecl, ConductanceSource, CoolingDecl, EdgeIdx, FluidChoice, FluidDecl, FluidPreset,
    JacketDecl, NetworkDecl, NodePair, NodeRole, ResolvedJacket, RolePair, ThermalNode,
};

fn node(name: &str, role: Option<NodeRole>, explicit: bool) -> ThermalNode {
    ThermalNode {
        name: name.to_owned(),
        role,
        explicit_capacity: explicit,
    }
}

fn pair(a: &str, b: &str) -> NodePair {
    NodePair {
        a: a.to_owned(),
        b: b.to_owned(),
    }
}

fn cond(a: &str, b: &str, explicit: bool) -> ConductanceDecl {
    ConductanceDecl {
        between: pair(a, b),
        explicit,
    }
}

/// A five-node machine: winding, stator, housing, coolant, ambient.
fn machine() -> NetworkDecl {
    NetworkDecl {
        nodes: vec![
            node("winding", Some(NodeRole::Winding), false),
            node("stator", Some(NodeRole::StatorIron), false),
            node("housing", Some(NodeRole::Housing), false),
            node("coolant", Some(NodeRole::Coolant), false),
            node("ambient", Some(NodeRole::Ambient), false),
        ],
        cooling: CoolingDecl {
            ambient_node: "ambient".to_owned(),
            coolant_node: Some("coolant".to_owned()),
            jacket: None,
            air_gap: None,
        },
        conductances: vec![cond("winding", "stator", false), cond("housing", "coolant", true)],
        convection: vec![pair("housing", "ambient")],
        cu_feedback: None,
        routes: vec!["winding".to_owned(), "stator".to_owned()],
        initial_nodes: vec![],
        max_nodes: 32,
    }
}

fn message(decl: &NetworkDecl) -> String {
    match resolve_network(decl) {
        Err(T1Error::Thermal(m)) => m,
        other => panic!("expected a thermal error, got {other:?}"),
    }
}

#[test]
fn machine_network_resolves() {
    let net = resolve_network(&machine()).unwrap();
    assert_eq!(net.ambient_idx, 4);
    assert_eq!(net.coolant_idx, Some(3));
    assert_eq!(
        net.capacity,
        vec![
            CapacitySource::Estimated,
            CapacitySource::Estimated,
            CapacitySource::Estimated,
            CapacitySource::Unused,
            CapacitySource::Unused
        ]
    );
    assert_eq!(net.conductances, vec![EdgeIdx { i: 0, j: 1 }, EdgeIdx { i: 2, j: 3 }]);
    assert_eq!(
        net.conductance_sources,
        vec![ConductanceSource::Estimated(RolePair::WindingStator), ConductanceSource::Explicit]
    );
    assert_eq!(net.convection, vec![EdgeIdx { i: 2, j: 4 }]);
    assert_eq!(net.coolant_spec_idx, Some(3));
    assert_eq!(net.jacket, None);
    assert_eq!(net.air_gap, None);
    assert_eq!(net.cu_nodes, None);
    assert_eq!(net.winding_idx, 0);
    assert_eq!(net.routes, vec![0, 1]);
    assert!(net.initial.is_empty());
}

#[test]
fn jacket_supplies_the_coolant() {
    let mut d = machine();
    d.cooling.coolant_node = None;
    d.cooling.jacket = Some(JacketDecl {
        housing_node: "housing".to_owned(),
        coolant_node: "coolant".to_owned(),
        fluid: FluidDecl::Named("water".to_owned()),
    });
    d.cooling.air_gap = Some(pair("winding", "stator"));
    d.cu_feedback = Some(vec!["winding".to_owned()]);
    d.initial_nodes = vec!["housing".to_owned()];
    let net = resolve_network(&d).unwrap();
    assert_eq!(net.coolant_idx, Some(3));
    assert_eq!(net.coolant_spec_idx, None);
    assert_eq!(
        net.jacket,
        Some(ResolvedJacket {
            housing: 2,
            coolant: 3,
            fluid: FluidChoice::Preset(FluidPreset::Water)
        })
    );
    assert_eq!(net.air_gap, Some(EdgeIdx { i: 0, j: 1 }));
    assert_eq!(net.cu_nodes, Some(vec![0]));
    assert_eq!(net.initial, vec![2]);
}

#[test]
fn too_many_nodes() {
    let mut d = machine();
    d.max_nodes = 4;
    assert_eq!(message(&d), "5 nodes exceeds the integrator limit of 4");
}

#[test]
fn unknown_ambient_node() {
    let mut d = machine();
    d.cooling.ambient_node = "outside".to_owned();
    assert_eq!(message(&d), "unknown node `outside`");
}

#[test]
fn node_without_capacity() {
    let mut d = machine();
    d.nodes.push(node("bracket", Some(NodeRole::Other), false));
    assert_eq!(
        message(&d),
        "node `bracket` has no `c_j_per_k` and no mass heuristic for its role — set it explicitly"
    );
    d.nodes[5].explicit_capacity = true;
    assert!(resolve_network(&d).is_ok());
}

#[test]
fn edge_without_conductance() {
    let mut d = machine();
    d.conductances.push(cond("winding", "coolant", false));
    assert_eq!(
        message(&d),
        "conductance `winding`↔`coolant` has no `w_per_k` and no mass heuristic for these roles"
    );
}

#[test]
fn unknown_conductance_node() {
    let mut d = machine();
    d.conductances.push(cond("winding", "magnet", true));
    assert_eq!(message(&d), "unknown node `magnet`");
}

#[test]
fn coolant_declared_twice() {
    let mut d = machine();
    d.cooling.jacket = Some(JacketDecl {
        housing_node: "housing".to_owned(),
        coolant_node: "coolant".to_owned(),
        fluid: FluidDecl::Props,
    });
    assert_eq!(message(&d), "declare either `cooling.coolant` or `cooling.jacket`, not both");
}

#[test]
fn unknown_fluid() {
    let mut d = machine();
    d.cooling.coolant_node = None;
    d.cooling.jacket = Some(JacketDecl {
        housing_node: "housing".to_owned(),
        coolant_node: "coolant".to_owned(),
        fluid: FluidDecl::Named("glycol".to_owned()),
    });
    assert_eq!(
        message(&d),
        "unknown coolant fluid `glycol` (known: water, ethylene_glycol_50, oil) — or give explicit `props`"
    );
}

#[test]
fn no_winding() {
    let mut d = machine();
    d.nodes[0].role = Some(NodeRole::Rotor);
    d.routes = vec![];
    assert_eq!(message(&d), "no node has role `winding`");
}

#[test]
fn unknown_route_target() {
    let mut d = machine();
    d.routes.push("rotor".to_owned());
    assert_eq!(message(&d), "unknown node `rotor`");
}

#[test]
fn first_failure_wins() {
    // Both the ambient node and a route are unknown: the ambient check comes first.
    let mut d = machine();
    d.cooling.ambient_node = "outside".to_owned();
    d.routes.push("rotor".to_owned());
    assert_eq!(message(&d), "unknown node `outside`");
}

#[test]
fn heuristics_by_role() {
    assert!(has_capacity_heuristic(NodeRole::Winding));
    assert!(has_capacity_heuristic(NodeRole::Housing));
    assert!(!has_capacity_heuristic(NodeRole::Coolant));
    assert!(!has_capacity_heuristic(NodeRole::Other));
    assert_eq!(
        conductance_pair(NodeRole::StatorIron, NodeRole::Winding),
        Some(RolePair::WindingStator)
    );
    assert_eq!(
        conductance_pair(NodeRole::Coolant, NodeRole::Housing),
        Some(RolePair::HousingCoolant)
    );
    assert_eq!(
        conductance_pair(NodeRole::Rotor, NodeRole::Winding),
        Some(RolePair::RotorContact)
    );
    assert_eq!(conductance_pair(NodeRole::Winding, NodeRole::Coolant), None);
}

#[test]
fn fluid_presets() {
    assert_eq!(fluid_preset(&"oil".to_owned()), Some(FluidPreset::Oil));
    assert_eq!(
        fluid_preset(&"ethylene_glycol_50".to_owned()),
        Some(FluidPreset::EthyleneGlycol50)
    );
    assert_eq!(fluid_preset(&"Water".to_owned()), None);
}
