//! Resolution of a machine `.emotor` thermal network: node names become indices, omitted heat
//! capacities and conductances are attributed to the documented mass heuristics (by node role),
//! the coolant is taken from the low-level `coolant` spec or a `jacket` block, and every node
//! reference is checked.
//!
//! Validation stops at the FIRST failing requirement, in a fixed order (see [`checks`]); its
//! message becomes the `T1Error::Thermal` text. The numeric assembly (capacities, conductances,
//! correlations, initial temperatures) reads the indices and attributions resolved here.
use vstd::prelude::*;
use crate::error::T1Error;
use crate::strings::{decimal, is_first_position, position_of, push_decimal, spec_position, views};

verus! {

/// The physical role of a thermal node (drives the mass heuristics).
#[derive(Clone, Copy, Debug, PartialEq, Eq, Structural)]
pub enum NodeRole {
    /// Stator winding (copper).
    Winding,
    /// Stator iron (electrical steel).
    StatorIron,
    /// Rotor (steel + magnet).
    Rotor,
    /// Housing (aluminium).
    Housing,
    /// Coolant.
    Coolant,
    /// Ambient.
    Ambient,
    /// Any other node.
    Other,
}

/// A network node: its name, optional role, and whether it states its heat capacity explicitly.
#[derive(Clone, Debug)]
pub struct ThermalNode {
    /// Node name.
    pub name: String,
    /// Node role, if declared.
    pub role: Option<NodeRole>,
    /// Whether `c_j_per_k` is given.
    pub explicit_capacity: bool,
}

/// An unordered node pair named by an edge (`between`).
#[derive(Clone, Debug)]
pub struct NodePair {
    /// First node name.
    pub a: String,
    /// Second node name.
    pub b: String,
}

/// A constant-conductance edge: its node pair and whether `w_per_k` is given.
#[derive(Clone, Debug)]
pub struct ConductanceDecl {
    /// The connected nodes.
    pub between: NodePair,
    /// Whether `w_per_k` is given.
    pub explicit: bool,
}

/// A coolant fluid: explicit properties, or a named preset.
#[derive(Clone, Debug)]
pub enum FluidDecl {
    /// Explicit properties.
    Props,
    /// A named preset.
    Named(String),
}

/// A cooling-jacket block (derives the housing↔coolant edge and the coolant node).
#[derive(Clone, Debug)]
pub struct JacketDecl {
    /// The housing node.
    pub housing_node: String,
    /// The coolant node.
    pub coolant_node: String,
    /// The coolant fluid.
    pub fluid: FluidDecl,
}

/// The `cooling:` block.
#[derive(Clone, Debug)]
pub struct CoolingDecl {
    /// The ambient (pinned) node.
    pub ambient_node: String,
    /// The node of the low-level `coolant` spec, if given.
    pub coolant_node: Option<String>,
    /// A jacket block, if given.
    pub jacket: Option<JacketDecl>,
    /// An air-gap film edge, if given.
    pub air_gap: Option<NodePair>,
}

/// The topology of an `.emotor` network, in document order.
#[derive(Clone, Debug)]
pub struct NetworkDecl {
    /// Nodes.
    pub nodes: Vec<ThermalNode>,
    /// The cooling block.
    pub cooling: CoolingDecl,
    /// Constant-conductance edges.
    pub conductances: Vec<ConductanceDecl>,
    /// Convection edges.
    pub convection: Vec<NodePair>,
    /// Copper-feedback node names, if copper feedback is declared.
    pub cu_feedback: Option<Vec<String>>,
    /// Loss-routing target node names.
    pub routes: Vec<String>,
    /// Node names of a per-node initial-temperature list (empty for a uniform or default start).
    pub initial_nodes: Vec<String>,
    /// The integrator's node limit.
    pub max_nodes: usize,
}

/// Where a node's heat capacity comes from.
#[derive(Clone, Copy, Debug, PartialEq, Eq, Structural)]
pub enum CapacitySource {
    /// Pinned (ambient) or balance-closed (coolant) node: capacity unused.
    Unused,
    /// Stated explicitly.
    Explicit,
    /// Estimated from the machine mass for the node's role.
    Estimated,
}

/// The role pair a conductance heuristic applies to.
#[derive(Clone, Copy, Debug, PartialEq, Eq, Structural)]
pub enum RolePair {
    /// Winding ↔ stator iron.
    WindingStator,
    /// Winding ↔ housing.
    WindingHousing,
    /// Stator iron ↔ housing.
    StatorHousing,
    /// Housing ↔ coolant.
    HousingCoolant,
    /// Housing ↔ ambient.
    HousingAmbient,
    /// Rotor ↔ stator iron, housing or winding.
    RotorContact,
}

/// Where an edge's conductance comes from.
#[derive(Clone, Copy, Debug, PartialEq, Eq, Structural)]
pub enum ConductanceSource {
    /// Stated explicitly.
    Explicit,
    /// Estimated from the machine mass for this role pair.
    Estimated(RolePair),
}

/// A named coolant preset.
#[derive(Clone, Copy, Debug, PartialEq, Eq, Structural)]
pub enum FluidPreset {
    /// Water.
    Water,
    /// 50 % ethylene glycol.
    EthyleneGlycol50,
    /// Oil.
    Oil,
}

/// A resolved jacket fluid.
#[derive(Clone, Copy, Debug, PartialEq, Eq, Structural)]
pub enum FluidChoice {
    /// Explicit properties.
    Props,
    /// A named preset.
    Preset(FluidPreset),
}

/// A resolved jacket: housing node, coolant node, fluid.
#[derive(Clone, Copy, Debug, PartialEq, Eq, Structural)]
pub struct ResolvedJacket {
    /// Housing node index.
    pub housing: usize,
    /// Coolant node index.
    pub coolant: usize,
    /// Fluid.
    pub fluid: FluidChoice,
}

/// A resolved edge: two node indices.
#[derive(Clone, Copy, Debug, PartialEq, Eq, Structural)]
pub struct EdgeIdx {
    /// First node index.
    pub i: usize,
    /// Second node index.
    pub j: usize,
}

/// The resolved network topology.
#[derive(Clone, Debug)]
pub struct ResolvedNetwork {
    /// The ambient node.
    pub ambient_idx: usize,
    /// The coolant node (from the `coolant` spec, else the jacket), if any.
    pub coolant_idx: Option<usize>,
    /// Per-node capacity source, in node order.
    pub capacity: Vec<CapacitySource>,
    /// Constant-conductance edges, in document order.
    pub conductances: Vec<EdgeIdx>,
    /// Their conductance sources.
    pub conductance_sources: Vec<ConductanceSource>,
    /// Convection edges, in document order.
    pub convection: Vec<EdgeIdx>,
    /// The low-level coolant spec's node, if given.
    pub coolant_spec_idx: Option<usize>,
    /// The jacket, if given.
    pub jacket: Option<ResolvedJacket>,
    /// The air-gap edge, if given.
    pub air_gap: Option<EdgeIdx>,
    /// Copper-feedback nodes, if declared.
    pub cu_nodes: Option<Vec<usize>>,
    /// The winding node (loss remainder target): the first node with role `winding`.
    pub winding_idx: usize,
    /// Loss-routing target nodes, in routing order.
    pub routes: Vec<usize>,
    /// Per-node initial-temperature targets, in list order.
    pub initial: Vec<usize>,
}

/// One validation requirement.
pub enum Check {
    /// The name must be a node.
    Known(Seq<char>),
    /// The condition must hold; otherwise the message is reported.
    Holds(bool, Seq<char>),
}

/// Whether a requirement fails against the node names.
pub open spec fn fails(c: Check, names: Seq<Seq<char>>) -> bool {
    match c {
        Check::Known(n) => !names.contains(n),
        Check::Holds(b, _) => !b,
    }
}

/// The message of an unknown node reference.
pub open spec fn unknown_node_msg(name: Seq<char>) -> Seq<char> {
    "unknown node `"@ + name + "`"@
}

/// The message a failing requirement reports.
pub open spec fn check_message(c: Check) -> Seq<char> {
    match c {
        Check::Known(n) => unknown_node_msg(n),
        Check::Holds(_, m) => m,
    }
}

/// The message of the first failing requirement, if any.
pub open spec fn first_failure(cs: Seq<Check>, names: Seq<Seq<char>>) -> Option<Seq<char>>
    decreases cs.len(),
{
    if cs.len() == 0 {
        None
    } else if fails(cs[0], names) {
        Some(check_message(cs[0]))
    } else {
        first_failure(cs.drop_first(), names)
    }
}

/// Requirements after a passing prefix are the ones that decide.
pub proof fn lemma_first_failure_append(a: Seq<Check>, b: Seq<Check>, names: Seq<Seq<char>>)
    ensures
        first_failure(a + b, names) == match first_failure(a, names) {
            Some(m) => Some(m),
            None => first_failure(b, names),
        },
    decreases a.len(),
{
    if a.len() > 0 {
        assert((a + b).drop_first() =~= a.drop_first() + b);
        assert((a + b)[0] == a[0]);
        lemma_first_failure_append(a.drop_first(), b, names);
    } else {
        assert(a + b =~= b);
    }
}

/// The message for too many nodes.
pub open spec fn too_many_msg(n: nat, max: nat) -> Seq<char> {
    decimal(n) + " nodes exceeds the integrator limit of "@ + decimal(max)
}

/// The message for a node with no capacity source.
pub open spec fn no_capacity_msg(name: Seq<char>) -> Seq<char> {
    "node `"@ + name + "` has no `c_j_per_k` and no mass heuristic for its role — set it explicitly"@
}

/// The message for an edge with no conductance source.
pub open spec fn no_conductance_msg(a: Seq<char>, b: Seq<char>) -> Seq<char> {
    "conductance `"@ + a + "`↔`"@ + b + "` has no `w_per_k` and no mass heuristic for these roles"@
}

/// The message for a doubly declared coolant.
pub open spec fn both_coolant_msg() -> Seq<char> {
    "declare either `cooling.coolant` or `cooling.jacket`, not both"@
}

/// The message for an unknown fluid preset.
pub open spec fn unknown_fluid_msg(name: Seq<char>) -> Seq<char> {
    "unknown coolant fluid `"@ + name + "` (known: water, ethylene_glycol_50, oil) — or give explicit `props`"@
}

/// The message when no node is the winding.
pub open spec fn no_winding_msg() -> Seq<char> {
    "no node has role `winding`"@
}

/// Whether a role has a mass-based heat-capacity heuristic.
pub open spec fn spec_has_capacity_heuristic(role: NodeRole) -> bool {
    role is Winding || role is StatorIron || role is Rotor || role is Housing
}

/// The role pair a conductance heuristic covers (first match in the documented order).
pub open spec fn spec_conductance_pair(a: NodeRole, b: NodeRole) -> Option<RolePair> {
    let pair = |r1: NodeRole, r2: NodeRole| (a == r1 && b == r2) || (a == r2 && b == r1);
    if pair(NodeRole::Winding, NodeRole::StatorIron) {
        Some(RolePair::WindingStator)
    } else if pair(NodeRole::Winding, NodeRole::Housing) {
        Some(RolePair::WindingHousing)
    } else if pair(NodeRole::StatorIron, NodeRole::Housing) {
        Some(RolePair::StatorHousing)
    } else if pair(NodeRole::Housing, NodeRole::Coolant) {
        Some(RolePair::HousingCoolant)
    } else if pair(NodeRole::Housing, NodeRole::Ambient) {
        Some(RolePair::HousingAmbient)
    } else if pair(NodeRole::Rotor, NodeRole::StatorIron) || pair(NodeRole::Rotor, NodeRole::Housing)
        || pair(NodeRole::Rotor, NodeRole::Winding) {
        Some(RolePair::RotorContact)
    } else {
        None
    }
}

/// The preset a fluid name selects.
pub open spec fn spec_fluid_preset(name: Seq<char>) -> Option<FluidPreset> {
    if name == "water"@ {
        Some(FluidPreset::Water)
    } else if name == "ethylene_glycol_50"@ {
        Some(FluidPreset::EthyleneGlycol50)
    } else if name == "oil"@ {
        Some(FluidPreset::Oil)
    } else {
        None
    }
}

/// Node names of a declaration.
pub open spec fn node_names(decl: NetworkDecl) -> Seq<Seq<char>> {
    decl.nodes@.map_values(|n: ThermalNode| n.name@)
}

/// The role of the (first) node called `name`.
pub open spec fn role_of(decl: NetworkDecl, name: Seq<char>) -> Option<NodeRole> {
    match spec_position(node_names(decl), name) {
        Some(i) => decl.nodes@[i].role,
        None => None,
    }
}

/// The coolant node name: the `coolant` spec's, else the jacket's.
pub open spec fn coolant_name(decl: NetworkDecl) -> Option<Seq<char>> {
    match decl.cooling.coolant_node {
        Some(c) => Some(c@),
        None => match decl.cooling.jacket {
            Some(j) => Some(j.coolant_node@),
            None => None,
        },
    }
}

/// Whether node `i` is pinned (ambient) or balance-closed (coolant).
pub open spec fn capacity_unused(decl: NetworkDecl, i: int) -> bool {
    spec_position(node_names(decl), decl.cooling.ambient_node@) == Some(i)
        || match coolant_name(decl) {
            Some(c) => spec_position(node_names(decl), c) == Some(i),
            None => false,
        }
}

/// The capacity source of node `i`.
pub open spec fn spec_capacity_source(decl: NetworkDecl, i: int) -> Option<CapacitySource> {
    let nd = decl.nodes@[i];
    if capacity_unused(decl, i) {
        Some(CapacitySource::Unused)
    } else if nd.explicit_capacity {
        Some(CapacitySource::Explicit)
    } else if nd.role matches Some(r) && spec_has_capacity_heuristic(r) {
        Some(CapacitySource::Estimated)
    } else {
        None
    }
}

/// The conductance source of an edge.
pub open spec fn spec_conductance_source(decl: NetworkDecl, c: ConductanceDecl) -> Option<ConductanceSource> {
    if c.explicit {
        Some(ConductanceSource::Explicit)
    } else {
        match (role_of(decl, c.between.a@), role_of(decl, c.between.b@)) {
            (Some(ra), Some(rb)) => match spec_conductance_pair(ra, rb) {
                Some(p) => Some(ConductanceSource::Estimated(p)),
                None => None,
            },
            _ => None,
        }
    }
}

/// `Known` requirements for `list[i..]`.
pub open spec fn known_from(list: Seq<Seq<char>>, i: int) -> Seq<Check>
    decreases list.len() - i,
{
    if i < 0 || i >= list.len() {
        Seq::empty()
    } else {
        seq![Check::Known(list[i])] + known_from(list, i + 1)
    }
}

/// Capacity requirements for nodes `i..`.
pub open spec fn capacity_from(decl: NetworkDecl, i: int) -> Seq<Check>
    decreases decl.nodes@.len() - i,
{
    if i < 0 || i >= decl.nodes@.len() {
        Seq::empty()
    } else {
        seq![Check::Holds(spec_capacity_source(decl, i) is Some, no_capacity_msg(decl.nodes@[i].name@))]
            + capacity_from(decl, i + 1)
    }
}

/// Requirements for constant-conductance edges `i..`: both names known, then a conductance source.
pub open spec fn conductance_from(decl: NetworkDecl, i: int) -> Seq<Check>
    decreases decl.conductances@.len() - i,
{
    if i < 0 || i >= decl.conductances@.len() {
        Seq::empty()
    } else {
        let c = decl.conductances@[i];
        seq![
            Check::Known(c.between.a@),
            Check::Known(c.between.b@),
            Check::Holds(spec_conductance_source(decl, c) is Some, no_conductance_msg(c.between.a@, c.between.b@)),
        ] + conductance_from(decl, i + 1)
    }
}

/// Requirements for node pairs `pairs[i..]`: both names known.
pub open spec fn pairs_from(pairs: Seq<NodePair>, i: int) -> Seq<Check>
    decreases pairs.len() - i,
{
    if i < 0 || i >= pairs.len() {
        Seq::empty()
    } else {
        seq![Check::Known(pairs[i].a@), Check::Known(pairs[i].b@)] + pairs_from(pairs, i + 1)
    }
}

/// Whether the jacket's fluid is explicit or a known preset.
pub open spec fn fluid_known(f: FluidDecl) -> bool {
    match f {
        FluidDecl::Props => true,
        FluidDecl::Named(n) => spec_fluid_preset(n@) is Some,
    }
}

/// The jacket requirements: not also a `coolant` spec, both nodes known, a known fluid.
pub open spec fn jacket_checks(decl: NetworkDecl) -> Seq<Check> {
    match decl.cooling.jacket {
        Some(j) => seq![
            Check::Holds(decl.cooling.coolant_node is None, both_coolant_msg()),
            Check::Known(j.housing_node@),
            Check::Known(j.coolant_node@),
            Check::Holds(fluid_known(j.fluid), match j.fluid {
                FluidDecl::Named(n) => unknown_fluid_msg(n@),
                FluidDecl::Props => Seq::empty(),
            }),
        ],
        None => Seq::empty(),
    }
}

/// Whether some node has role `winding`.
pub open spec fn has_winding(decl: NetworkDecl) -> bool {
    exists|i: int| 0 <= i < decl.nodes@.len() && decl.nodes@[i].role == Some(NodeRole::Winding)
}

/// The requirements that precede the capacity stage.
pub open spec fn head_checks(decl: NetworkDecl) -> Seq<Check> {
    seq![
        Check::Holds(decl.nodes@.len() <= decl.max_nodes, too_many_msg(decl.nodes@.len(), decl.max_nodes as nat)),
        Check::Known(decl.cooling.ambient_node@),
    ] + match coolant_name(decl) {
        Some(c) => seq![Check::Known(c)],
        None => Seq::empty(),
    }
}

/// The requirements of the cooling extras (coolant spec, jacket, air gap) and copper feedback.
pub open spec fn cooling_checks(decl: NetworkDecl) -> Seq<Check> {
    (match decl.cooling.coolant_node {
        Some(c) => seq![Check::Known(c@)],
        None => Seq::empty(),
    }) + jacket_checks(decl) + (match decl.cooling.air_gap {
        Some(p) => seq![Check::Known(p.a@), Check::Known(p.b@)],
        None => Seq::empty(),
    }) + (match decl.cu_feedback {
        Some(l) => known_from(views(l@), 0),
        None => Seq::empty(),
    })
}

/// Every requirement of a network declaration, in the order they are checked.
pub open spec fn checks(decl: NetworkDecl) -> Seq<Check> {
    head_checks(decl)
        + capacity_from(decl, 0)
        + conductance_from(decl, 0)
        + pairs_from(decl.convection@, 0)
        + cooling_checks(decl)
        + seq![Check::Holds(has_winding(decl), no_winding_msg())]
        + known_from(views(decl.routes@), 0)
        + known_from(views(decl.initial_nodes@), 0)
}

/// The index of the node called `name` (which must be known).
pub open spec fn idx(decl: NetworkDecl, name: Seq<char>) -> int {
    spec_position(node_names(decl), name)->Some_0
}

/// The resolved edge of a named pair.
pub open spec fn edge_of(decl: NetworkDecl, p: NodePair, e: EdgeIdx) -> bool {
    e.i == idx(decl, p.a@) && e.j == idx(decl, p.b@)
}

/// Index `w` is the first node with role `winding`.
pub open spec fn is_first_winding(decl: NetworkDecl, w: int) -> bool {
    &&& 0 <= w < decl.nodes@.len()
    &&& decl.nodes@[w].role == Some(NodeRole::Winding)
    &&& forall|k: int| 0 <= k < w ==> decl.nodes@[k].role != Some(NodeRole::Winding)
}

/// Every node index of a resolved network is below `n` (names an existing node).
pub open spec fn indices_below(net: ResolvedNetwork, n: int) -> bool {
    &&& net.ambient_idx < n
    &&& (net.coolant_idx matches Some(c) ==> c < n)
    &&& forall|i: int| 0 <= i < net.conductances@.len() ==> (#[trigger] net.conductances@[i]).i < n && net.conductances@[i].j < n
    &&& forall|i: int| 0 <= i < net.convection@.len() ==> (#[trigger] net.convection@[i]).i < n && net.convection@[i].j < n
    &&& (net.coolant_spec_idx matches Some(c) ==> c < n)
    &&& (net.jacket matches Some(j) ==> j.housing < n && j.coolant < n)
    &&& (net.air_gap matches Some(e) ==> e.i < n && e.j < n)
    &&& (net.cu_nodes matches Some(cu) ==> forall|i: int| 0 <= i < cu@.len() ==> #[trigger] cu@[i] < n)
    &&& net.winding_idx < n
    &&& forall|i: int| 0 <= i < net.routes@.len() ==> #[trigger] net.routes@[i] < n
    &&& forall|i: int| 0 <= i < net.initial@.len() ==> #[trigger] net.initial@[i] < n
}

/// The resolved network is exactly what the declaration names.
pub open spec fn resolved_matches(decl: NetworkDecl, r: ResolvedNetwork) -> bool {
    &&& r.ambient_idx == idx(decl, decl.cooling.ambient_node@)
    &&& match coolant_name(decl) {
        Some(c) => r.coolant_idx == Some(idx(decl, c) as usize),
        None => r.coolant_idx is None,
    }
    &&& r.capacity@.len() == decl.nodes@.len()
    &&& forall|i: int| 0 <= i < decl.nodes@.len() ==> spec_capacity_source(decl, i) == Some(#[trigger] r.capacity@[i])
    &&& r.conductances@.len() == decl.conductances@.len()
    &&& r.conductance_sources@.len() == decl.conductances@.len()
    &&& forall|i: int| 0 <= i < decl.conductances@.len() ==> edge_of(decl, decl.conductances@[i].between, #[trigger] r.conductances@[i])
        && spec_conductance_source(decl, decl.conductances@[i]) == Some(r.conductance_sources@[i])
    &&& r.convection@.len() == decl.convection@.len()
    &&& forall|i: int| 0 <= i < decl.convection@.len() ==> edge_of(decl, decl.convection@[i], #[trigger] r.convection@[i])
    &&& match decl.cooling.coolant_node {
        Some(c) => r.coolant_spec_idx == Some(idx(decl, c@) as usize),
        None => r.coolant_spec_idx is None,
    }
    &&& match decl.cooling.jacket {
        Some(j) => r.jacket matches Some(rj) && rj.housing == idx(decl, j.housing_node@)
            && rj.coolant == idx(decl, j.coolant_node@) && match j.fluid {
                FluidDecl::Props => rj.fluid == FluidChoice::Props,
                FluidDecl::Named(n) => rj.fluid == FluidChoice::Preset(spec_fluid_preset(n@)->Some_0),
            },
        None => r.jacket is None,
    }
    &&& match decl.cooling.air_gap {
        Some(p) => r.air_gap matches Some(e) && edge_of(decl, p, e),
        None => r.air_gap is None,
    }
    &&& match decl.cu_feedback {
        Some(l) => r.cu_nodes matches Some(cu) && cu@.len() == l@.len()
            && forall|i: int| 0 <= i < l@.len() ==> #[trigger] cu@[i] == idx(decl, l@[i]@),
        None => r.cu_nodes is None,
    }
    &&& is_first_winding(decl, r.winding_idx as int)
    &&& r.routes@.len() == decl.routes@.len()
    &&& forall|i: int| 0 <= i < decl.routes@.len() ==> #[trigger] r.routes@[i] == idx(decl, decl.routes@[i]@)
    &&& r.initial@.len() == decl.initial_nodes@.len()
    &&& forall|i: int| 0 <= i < decl.initial_nodes@.len() ==> #[trigger] r.initial@[i] == idx(decl, decl.initial_nodes@[i]@)
}

/// A passing requirement extends a passing prefix.
proof fn lemma_step_pass(done: Seq<Check>, c: Check, rest: Seq<Check>, names: Seq<Seq<char>>)
    requires
        first_failure(done, names) is None,
        !fails(c, names),
    ensures
        first_failure(done.push(c), names) is None,
        done + (seq![c] + rest) == done.push(c) + rest,
{
    lemma_first_failure_append(done, seq![c], names);
    assert(seq![c].drop_first() =~= Seq::<Check>::empty());
    assert(seq![c][0] == c);
    assert(first_failure(Seq::<Check>::empty(), names) is None);
    assert(first_failure(seq![c], names) is None);
    assert(done + seq![c] =~= done.push(c));
    assert(done + (seq![c] + rest) =~= done.push(c) + rest);
}

/// A failing requirement after a passing prefix is the first failure.
proof fn lemma_step_fail(done: Seq<Check>, c: Check, rest: Seq<Check>, names: Seq<Seq<char>>)
    requires
        first_failure(done, names) is None,
        fails(c, names),
    ensures
        first_failure(done + (seq![c] + rest), names) == Some(check_message(c)),
{
    lemma_first_failure_append(done, seq![c] + rest, names);
    assert((seq![c] + rest)[0] == c);
}

fn unknown_node_message(name: &String) -> (m: String)
    ensures
        m@ == unknown_node_msg(name@),
{
    let mut m = String::from_str("unknown node `");
    m.append(name.as_str());
    m.append("`");
    m
}

/// Resolve one node name to its first index, or the unknown-node error.
fn lookup(names: &Vec<String>, name: &String) -> (r: Result<usize, T1Error>)
    ensures
        match r {
            Ok(i) => is_first_position(views(names@), name@, i as int)
                && spec_position(views(names@), name@) == Some(i as int),
            Err(e) => !views(names@).contains(name@) && e == T1Error::Thermal(e->Thermal_0)
                && e->Thermal_0@ == unknown_node_msg(name@),
        },
{
    match position_of(names, name) {
        Some(i) => Ok(i),
        None => Err(T1Error::Thermal(unknown_node_message(name))),
    }
}

/// The outcome contract of a validation stage: `Ok` iff no requirement of the stage fails, and an
/// error carries the first failing requirement's message.
pub open spec fn stage_result<T>(r: Result<T, T1Error>, stage: Seq<Check>, names: Seq<Seq<char>>) -> bool {
    match r {
        Ok(_) => first_failure(stage, names) is None,
        Err(e) => e is Thermal && first_failure(stage, names) == Some(e->Thermal_0@),
    }
}

/// Resolve a list of node names (in order).
fn resolve_names(names: &Vec<String>, list: &Vec<String>) -> (r: Result<Vec<usize>, T1Error>)
    ensures
        stage_result(r, known_from(views(list@), 0), views(names@)),
        r matches Ok(v) ==> v@.len() == list@.len() && forall|i: int| 0 <= i < list@.len()
            ==> spec_position(views(names@), list@[i]@) == Some(#[trigger] v@[i] as int) && v@[i] < names@.len(),
{
    let ghost nm = views(names@);
    let ghost vl = views(list@);
    let ghost mut done: Seq<Check> = Seq::empty();
    let mut out: Vec<usize> = Vec::new();
    let mut i: usize = 0;
    while i < list.len()
        invariant
            0 <= i <= list.len(),
            nm == views(names@),
            vl == views(list@),
            first_failure(done, nm) is None,
            known_from(vl, 0) == done + known_from(vl, i as int),
            out@.len() == i,
            forall|k: int| 0 <= k < i ==> spec_position(nm, list@[k]@) == Some(#[trigger] out@[k] as int) && out@[k] < names@.len(),
        decreases list.len() - i,
    {
        let ghost c = Check::Known(vl[i as int]);
        assert(vl[i as int] == list@[i as int]@);
        assert(known_from(vl, i as int) == seq![c] + known_from(vl, i + 1));
        match lookup(names, &list[i]) {
            Ok(k) => {
                proof {
                    lemma_step_pass(done, c, known_from(vl, i + 1), nm);
                    done = done.push(c);
                }
                out.push(k);
            },
            Err(e) => {
                proof {
                    lemma_step_fail(done, c, known_from(vl, i + 1), nm);
                }
                return Err(e);
            },
        }
        i = i + 1;
    }
    proof {
        assert(known_from(vl, i as int) == Seq::<Check>::empty());
        assert(done + Seq::<Check>::empty() =~= done);
    }
    Ok(out)
}

/// Whether a role has a mass-based heat-capacity heuristic.
pub fn has_capacity_heuristic(role: NodeRole) -> (r: bool)
    ensures
        r == spec_has_capacity_heuristic(role),
{
    match role {
        NodeRole::Winding | NodeRole::StatorIron | NodeRole::Rotor | NodeRole::Housing => true,
        NodeRole::Coolant | NodeRole::Ambient | NodeRole::Other => false,
    }
}

/// The role pair a mass-based conductance heuristic covers, if any (first match in the order
/// winding↔stator, winding↔housing, stator↔housing, housing↔coolant, housing↔ambient, rotor
/// contacts).
pub fn conductance_pair(a: NodeRole, b: NodeRole) -> (r: Option<RolePair>)
    ensures
        r == spec_conductance_pair(a, b),
        r == spec_conductance_pair(b, a),
        ((a == NodeRole::StatorIron && b == NodeRole::Housing) || (a == NodeRole::Housing && b == NodeRole::StatorIron))
            ==> r == Some(RolePair::StatorHousing),
{
    proof { lemma_conductance_table(a, b); }
    let pair = |r1: NodeRole, r2: NodeRole| -> (p: bool)
        ensures
            p == ((a == r1 && b == r2) || (a == r2 && b == r1)),
        { (a == r1 && b == r2) || (a == r2 && b == r1) };
    if pair(NodeRole::Winding, NodeRole::StatorIron) {
        Some(RolePair::WindingStator)
    } else if pair(NodeRole::Winding, NodeRole::Housing) {
        Some(RolePair::WindingHousing)
    } else if pair(NodeRole::StatorIron, NodeRole::Housing) {
        Some(RolePair::StatorHousing)
    } else if pair(NodeRole::Housing, NodeRole::Coolant) {
        Some(RolePair::HousingCoolant)
    } else if pair(NodeRole::Housing, NodeRole::Ambient) {
        Some(RolePair::HousingAmbient)
    } else if pair(NodeRole::Rotor, NodeRole::StatorIron) || pair(NodeRole::Rotor, NodeRole::Housing)
        || pair(NodeRole::Rotor, NodeRole::Winding) {
        Some(RolePair::RotorContact)
    } else {
        None
    }
}

/// The documented conductance heuristic table: winding–stator, winding–housing, stator–housing,
/// housing–coolant, housing–ambient, and rotor contact with the stator, housing or winding. Each
/// covered role pair, in either order, selects its table entry; the selection does not depend on
/// the order of the two roles; and every other role pair has no heuristic.
pub proof fn lemma_conductance_table(a: NodeRole, b: NodeRole)
    ensures
        spec_conductance_pair(a, b) == spec_conductance_pair(b, a),
        (a == NodeRole::Winding && b == NodeRole::StatorIron) ==> spec_conductance_pair(a, b) == Some(RolePair::WindingStator),
        (a == NodeRole::StatorIron && b == NodeRole::Winding) ==> spec_conductance_pair(a, b) == Some(RolePair::WindingStator),
        (a == NodeRole::Winding && b == NodeRole::Housing) ==> spec_conductance_pair(a, b) == Some(RolePair::WindingHousing),
        (a == NodeRole::Housing && b == NodeRole::Winding) ==> spec_conductance_pair(a, b) == Some(RolePair::WindingHousing),
        (a == NodeRole::StatorIron && b == NodeRole::Housing) ==> spec_conductance_pair(a, b) == Some(RolePair::StatorHousing),
        (a == NodeRole::Housing && b == NodeRole::StatorIron) ==> spec_conductance_pair(a, b) == Some(RolePair::StatorHousing),
        (a == NodeRole::Housing && b == NodeRole::Coolant) ==> spec_conductance_pair(a, b) == Some(RolePair::HousingCoolant),
        (a == NodeRole::Coolant && b == NodeRole::Housing) ==> spec_conductance_pair(a, b) == Some(RolePair::HousingCoolant),
        (a == NodeRole::Housing && b == NodeRole::Ambient) ==> spec_conductance_pair(a, b) == Some(RolePair::HousingAmbient),
        (a == NodeRole::Ambient && b == NodeRole::Housing) ==> spec_conductance_pair(a, b) == Some(RolePair::HousingAmbient),
        (a == NodeRole::Rotor && (b == NodeRole::StatorIron || b == NodeRole::Housing || b == NodeRole::Winding))
            ==> spec_conductance_pair(a, b) == Some(RolePair::RotorContact),
        (b == NodeRole::Rotor && (a == NodeRole::StatorIron || a == NodeRole::Housing || a == NodeRole::Winding))
            ==> spec_conductance_pair(a, b) == Some(RolePair::RotorContact),
        spec_conductance_pair(a, b) is Some ==> {
            ||| (a == NodeRole::Winding && b == NodeRole::StatorIron) || (a == NodeRole::StatorIron && b == NodeRole::Winding)
            ||| (a == NodeRole::Winding && b == NodeRole::Housing) || (a == NodeRole::Housing && b == NodeRole::Winding)
            ||| (a == NodeRole::StatorIron && b == NodeRole::Housing) || (a == NodeRole::Housing && b == NodeRole::StatorIron)
            ||| (a == NodeRole::Housing && b == NodeRole::Coolant) || (a == NodeRole::Coolant && b == NodeRole::Housing)
            ||| (a == NodeRole::Housing && b == NodeRole::Ambient) || (a == NodeRole::Ambient && b == NodeRole::Housing)
            ||| (a == NodeRole::Rotor && (b == NodeRole::StatorIron || b == NodeRole::Housing || b == NodeRole::Winding))
            ||| (b == NodeRole::Rotor && (a == NodeRole::StatorIron || a == NodeRole::Housing || a == NodeRole::Winding))
        },
{
}

/// An edge without an explicit `w_per_k` between two nodes with roles takes the heuristic of
/// their role pair: in particular a stator-iron ↔ housing edge is estimated (stator–housing), in
/// either order; an explicit edge is always explicit.
pub proof fn lemma_edge_conductance_source(decl: NetworkDecl, c: ConductanceDecl, ra: NodeRole, rb: NodeRole)
    requires
        role_of(decl, c.between.a@) == Some(ra),
        role_of(decl, c.between.b@) == Some(rb),
    ensures
        c.explicit ==> spec_conductance_source(decl, c) == Some(ConductanceSource::Explicit),
        !c.explicit && ((ra == NodeRole::StatorIron && rb == NodeRole::Housing)
            || (ra == NodeRole::Housing && rb == NodeRole::StatorIron))
            ==> spec_conductance_source(decl, c) == Some(ConductanceSource::Estimated(RolePair::StatorHousing)),
        !c.explicit && ((ra == NodeRole::Winding && rb == NodeRole::StatorIron)
            || (ra == NodeRole::StatorIron && rb == NodeRole::Winding))
            ==> spec_conductance_source(decl, c) == Some(ConductanceSource::Estimated(RolePair::WindingStator)),
        !c.explicit && ((ra == NodeRole::Winding && rb == NodeRole::Housing)
            || (ra == NodeRole::Housing && rb == NodeRole::Winding))
            ==> spec_conductance_source(decl, c) == Some(ConductanceSource::Estimated(RolePair::WindingHousing)),
        !c.explicit && ((ra == NodeRole::Housing && rb == NodeRole::Coolant)
            || (ra == NodeRole::Coolant && rb == NodeRole::Housing))
            ==> spec_conductance_source(decl, c) == Some(ConductanceSource::Estimated(RolePair::HousingCoolant)),
        !c.explicit && ((ra == NodeRole::Housing && rb == NodeRole::Ambient)
            || (ra == NodeRole::Ambient && rb == NodeRole::Housing))
            ==> spec_conductance_source(decl, c) == Some(ConductanceSource::Estimated(RolePair::HousingAmbient)),
        !c.explicit && ((ra == NodeRole::Rotor && (rb == NodeRole::StatorIron || rb == NodeRole::Housing || rb == NodeRole::Winding))
            || (rb == NodeRole::Rotor && (ra == NodeRole::StatorIron || ra == NodeRole::Housing || ra == NodeRole::Winding)))
            ==> spec_conductance_source(decl, c) == Some(ConductanceSource::Estimated(RolePair::RotorContact)),
{
    lemma_conductance_table(ra, rb);
}

/// The coolant preset a fluid name selects (`water`, `ethylene_glycol_50`, `oil`).
pub fn fluid_preset(name: &String) -> (r: Option<FluidPreset>)
    ensures
        r == spec_fluid_preset(name@),
{
    if *name == String::from_str("water") {
        Some(FluidPreset::Water)
    } else if *name == String::from_str("ethylene_glycol_50") {
        Some(FluidPreset::EthyleneGlycol50)
    } else if *name == String::from_str("oil") {
        Some(FluidPreset::Oil)
    } else {
        None
    }
}

fn node_name_list(decl: &NetworkDecl) -> (r: Vec<String>)
    ensures
        views(r@) == node_names(*decl),
{
    let mut out: Vec<String> = Vec::new();
    let mut i: usize = 0;
    while i < decl.nodes.len()
        invariant
            0 <= i <= decl.nodes.len(),
            out@.len() == i,
            forall|k: int| 0 <= k < i ==> #[trigger] out@[k]@ == decl.nodes@[k].name@,
        decreases decl.nodes.len() - i,
    {
        out.push(decl.nodes[i].name.clone());
        i = i + 1;
    }
    assert(views(out@) =~= node_names(*decl));
    out
}

/// Capacity sources for every node, or the first node with none.
fn resolve_capacities(decl: &NetworkDecl, names: &Vec<String>, ambient_idx: usize, coolant_idx: Option<usize>)
    -> (r: Result<Vec<CapacitySource>, T1Error>)
    requires
        views(names@) == node_names(*decl),
        spec_position(node_names(*decl), decl.cooling.ambient_node@) == Some(ambient_idx as int),
        match coolant_name(*decl) {
            Some(c) => coolant_idx matches Some(ci) && spec_position(node_names(*decl), c) == Some(ci as int),
            None => coolant_idx is None,
        },
    ensures
        stage_result(r, capacity_from(*decl, 0), views(names@)),
        r matches Ok(v) ==> v@.len() == decl.nodes@.len() && forall|i: int| 0 <= i < decl.nodes@.len()
            ==> spec_capacity_source(*decl, i) == Some(#[trigger] v@[i]),
{
    let ghost nm = views(names@);
    let ghost mut done: Seq<Check> = Seq::empty();
    let mut out: Vec<CapacitySource> = Vec::new();
    let mut i: usize = 0;
    while i < decl.nodes.len()
        invariant
            0 <= i <= decl.nodes.len(),
            nm == views(names@),
            nm == node_names(*decl),
            spec_position(node_names(*decl), decl.cooling.ambient_node@) == Some(ambient_idx as int),
            match coolant_name(*decl) {
                Some(c) => coolant_idx matches Some(ci) && spec_position(node_names(*decl), c) == Some(ci as int),
                None => coolant_idx is None,
            },
            first_failure(done, nm) is None,
            capacity_from(*decl, 0) == done + capacity_from(*decl, i as int),
            out@.len() == i,
            forall|k: int| 0 <= k < i ==> spec_capacity_source(*decl, k) == Some(#[trigger] out@[k]),
        decreases decl.nodes.len() - i,
    {
        let nd = &decl.nodes[i];
        let unused = i == ambient_idx || match coolant_idx {
            Some(ci) => i == ci,
            None => false,
        };
        assert(unused == capacity_unused(*decl, i as int));
        let source: Option<CapacitySource> = if unused {
            Some(CapacitySource::Unused)
        } else if nd.explicit_capacity {
            Some(CapacitySource::Explicit)
        } else {
            match nd.role {
                Some(role) => if has_capacity_heuristic(role) { Some(CapacitySource::Estimated) } else { None },
                None => None,
            }
        };
        assert(source == spec_capacity_source(*decl, i as int));
        let ghost c = Check::Holds(source is Some, no_capacity_msg(decl.nodes@[i as int].name@));
        assert(capacity_from(*decl, i as int) == seq![c] + capacity_from(*decl, i + 1));
        match source {
            Some(src) => {
                proof {
                    lemma_step_pass(done, c, capacity_from(*decl, i + 1), nm);
                    done = done.push(c);
                }
                out.push(src);
            },
            None => {
                proof {
                    lemma_step_fail(done, c, capacity_from(*decl, i + 1), nm);
                }
                let mut m = String::from_str("node `");
                m.append(nd.name.as_str());
                m.append("` has no `c_j_per_k` and no mass heuristic for its role — set it explicitly");
                return Err(T1Error::Thermal(m));
            },
        }
        i = i + 1;
    }
    proof {
        assert(capacity_from(*decl, i as int) == Seq::<Check>::empty());
        assert(done + Seq::<Check>::empty() =~= done);
    }
    Ok(out)
}

/// Constant-conductance edges, or the first unknown node / edge with no conductance source.
fn resolve_conductances(decl: &NetworkDecl, names: &Vec<String>)
    -> (r: Result<(Vec<EdgeIdx>, Vec<ConductanceSource>), T1Error>)
    requires
        views(names@) == node_names(*decl),
    ensures
        stage_result(r, conductance_from(*decl, 0), views(names@)),
        r matches Ok((e, s)) ==> e@.len() == decl.conductances@.len() && s@.len() == decl.conductances@.len()
            && forall|i: int| 0 <= i < decl.conductances@.len() ==> edge_of(*decl, decl.conductances@[i].between, #[trigger] e@[i])
                && spec_conductance_source(*decl, decl.conductances@[i]) == Some(s@[i])
                && e@[i].i < decl.nodes@.len() && e@[i].j < decl.nodes@.len(),
{
    let ghost nm = views(names@);
    let ghost mut done: Seq<Check> = Seq::empty();
    let mut edges: Vec<EdgeIdx> = Vec::new();
    let mut sources: Vec<ConductanceSource> = Vec::new();
    let mut i: usize = 0;
    while i < decl.conductances.len()
        invariant
            0 <= i <= decl.conductances.len(),
            nm == views(names@),
            nm == node_names(*decl),
            first_failure(done, nm) is None,
            conductance_from(*decl, 0) == done + conductance_from(*decl, i as int),
            edges@.len() == i,
            sources@.len() == i,
            forall|k: int| 0 <= k < i ==> edge_of(*decl, decl.conductances@[k].between, #[trigger] edges@[k])
                && spec_conductance_source(*decl, decl.conductances@[k]) == Some(sources@[k])
                && edges@[k].i < decl.nodes@.len() && edges@[k].j < decl.nodes@.len(),
        decreases decl.conductances.len() - i,
    {
        let c = &decl.conductances[i];
        let ghost ca = Check::Known(c.between.a@);
        let ghost cb = Check::Known(c.between.b@);
        let ghost cc = Check::Holds(spec_conductance_source(*decl, *c) is Some,
            no_conductance_msg(c.between.a@, c.between.b@));
        let ghost rest = conductance_from(*decl, i + 1);
        assert(conductance_from(*decl, i as int) =~= seq![ca] + (seq![cb] + (seq![cc] + rest)));
        let ia = match lookup(names, &c.between.a) {
            Ok(k) => k,
            Err(e) => {
                proof { lemma_step_fail(done, ca, seq![cb] + (seq![cc] + rest), nm); }
                return Err(e);
            },
        };
        proof {
            lemma_step_pass(done, ca, seq![cb] + (seq![cc] + rest), nm);
            done = done.push(ca);
        }
        let ib = match lookup(names, &c.between.b) {
            Ok(k) => k,
            Err(e) => {
                proof { lemma_step_fail(done, cb, seq![cc] + rest, nm); }
                return Err(e);
            },
        };
        proof {
            lemma_step_pass(done, cb, seq![cc] + rest, nm);
            done = done.push(cb);
        }
        assert(role_of(*decl, c.between.a@) == decl.nodes@[ia as int].role);
        assert(role_of(*decl, c.between.b@) == decl.nodes@[ib as int].role);
        let source: Option<ConductanceSource> = if c.explicit {
            Some(ConductanceSource::Explicit)
        } else {
            match (decl.nodes[ia].role, decl.nodes[ib].role) {
                (Some(ra), Some(rb)) => match conductance_pair(ra, rb) {
                    Some(p) => Some(ConductanceSource::Estimated(p)),
                    None => None,
                },
                _ => None,
            }
        };
        assert(source == spec_conductance_source(*decl, *c));
        match source {
            Some(src) => {
                proof {
                    lemma_step_pass(done, cc, rest, nm);
                    done = done.push(cc);
                }
                edges.push(EdgeIdx { i: ia, j: ib });
                sources.push(src);
            },
            None => {
                proof { lemma_step_fail(done, cc, rest, nm); }
                let mut m = String::from_str("conductance `");
                m.append(c.between.a.as_str());
                m.append("`↔`");
                m.append(c.between.b.as_str());
                m.append("` has no `w_per_k` and no mass heuristic for these roles");
                return Err(T1Error::Thermal(m));
            },
        }
        i = i + 1;
    }
    proof {
        assert(conductance_from(*decl, i as int) == Seq::<Check>::empty());
        assert(done + Seq::<Check>::empty() =~= done);
    }
    Ok((edges, sources))
}

/// Resolve named node pairs (convection edges), or the first unknown node.
fn resolve_pairs(names: &Vec<String>, pairs: &Vec<NodePair>) -> (r: Result<Vec<EdgeIdx>, T1Error>)
    ensures
        stage_result(r, pairs_from(pairs@, 0), views(names@)),
        r matches Ok(e) ==> e@.len() == pairs@.len() && forall|i: int| 0 <= i < pairs@.len()
            ==> spec_position(views(names@), pairs@[i].a@) == Some(#[trigger] e@[i].i as int)
                && spec_position(views(names@), pairs@[i].b@) == Some(e@[i].j as int)
                && e@[i].i < names@.len() && e@[i].j < names@.len(),
{
    let ghost nm = views(names@);
    let ghost mut done: Seq<Check> = Seq::empty();
    let mut out: Vec<EdgeIdx> = Vec::new();
    let mut i: usize = 0;
    while i < pairs.len()
        invariant
            0 <= i <= pairs.len(),
            nm == views(names@),
            first_failure(done, nm) is None,
            pairs_from(pairs@, 0) == done + pairs_from(pairs@, i as int),
            out@.len() == i,
            forall|k: int| 0 <= k < i ==> spec_position(nm, pairs@[k].a@) == Some(#[trigger] out@[k].i as int)
                && spec_position(nm, pairs@[k].b@) == Some(out@[k].j as int)
                && out@[k].i < names@.len() && out@[k].j < names@.len(),
        decreases pairs.len() - i,
    {
        let p = &pairs[i];
        let ghost ca = Check::Known(p.a@);
        let ghost cb = Check::Known(p.b@);
        let ghost rest = pairs_from(pairs@, i + 1);
        assert(pairs_from(pairs@, i as int) =~= seq![ca] + (seq![cb] + rest));
        let ia = match lookup(names, &p.a) {
            Ok(k) => k,
            Err(e) => {
                proof { lemma_step_fail(done, ca, seq![cb] + rest, nm); }
                return Err(e);
            },
        };
        proof {
            lemma_step_pass(done, ca, seq![cb] + rest, nm);
            done = done.push(ca);
        }
        let ib = match lookup(names, &p.b) {
            Ok(k) => k,
            Err(e) => {
                proof { lemma_step_fail(done, cb, rest, nm); }
                return Err(e);
            },
        };
        proof {
            lemma_step_pass(done, cb, rest, nm);
            done = done.push(cb);
        }
        out.push(EdgeIdx { i: ia, j: ib });
        i = i + 1;
    }
    proof {
        assert(pairs_from(pairs@, i as int) == Seq::<Check>::empty());
        assert(done + Seq::<Check>::empty() =~= done);
    }
    Ok(out)
}

/// The first node with role `winding`.
fn find_winding(decl: &NetworkDecl) -> (r: Option<usize>)
    ensures
        match r {
            Some(w) => is_first_winding(*decl, w as int),
            None => !has_winding(*decl),
        },
{
    let mut i: usize = 0;
    while i < decl.nodes.len()
        invariant
            0 <= i <= decl.nodes.len(),
            forall|k: int| 0 <= k < i ==> decl.nodes@[k].role != Some(NodeRole::Winding),
        decreases decl.nodes.len() - i,
    {
        if decl.nodes[i].role == Some(NodeRole::Winding) {
            return Some(i);
        }
        i = i + 1;
    }
    None
}

fn resolve_jacket(decl: &NetworkDecl, names: &Vec<String>) -> (r: Result<Option<ResolvedJacket>, T1Error>)
    requires
        views(names@) == node_names(*decl),
    ensures
        stage_result(r, jacket_checks(*decl), views(names@)),
        r matches Ok(jk) ==> match decl.cooling.jacket {
            Some(j) => jk matches Some(rj) && rj.housing == idx(*decl, j.housing_node@)
                && rj.coolant == idx(*decl, j.coolant_node@)
                && rj.housing < decl.nodes@.len() && rj.coolant < decl.nodes@.len() && match j.fluid {
                    FluidDecl::Props => rj.fluid == FluidChoice::Props,
                    FluidDecl::Named(n) => rj.fluid == FluidChoice::Preset(spec_fluid_preset(n@)->Some_0),
                },
            None => jk is None,
        },
{
    let ghost nm = views(names@);
    match &decl.cooling.jacket {
        Some(j) => {
            let ghost c0 = Check::Holds(decl.cooling.coolant_node is None, both_coolant_msg());
            let ghost c1 = Check::Known(j.housing_node@);
            let ghost c2 = Check::Known(j.coolant_node@);
            let ghost c3 = Check::Holds(fluid_known(j.fluid), match &j.fluid {
                FluidDecl::Named(n) => unknown_fluid_msg(n@),
                FluidDecl::Props => Seq::empty(),
            });
            let ghost tail = Seq::<Check>::empty();
            assert(jacket_checks(*decl) =~= Seq::<Check>::empty() + (seq![c0] + (seq![c1] + (seq![c2] + (seq![c3] + tail)))));
            let ghost mut done = Seq::<Check>::empty();
            if decl.cooling.coolant_node.is_some() {
                proof { lemma_step_fail(done, c0, seq![c1] + (seq![c2] + (seq![c3] + tail)), nm); }
                return Err(T1Error::Thermal(String::from_str("declare either `cooling.coolant` or `cooling.jacket`, not both")));
            }
            proof {
                lemma_step_pass(done, c0, seq![c1] + (seq![c2] + (seq![c3] + tail)), nm);
                done = done.push(c0);
            }
            let housing = match lookup(names, &j.housing_node) {
                Ok(k) => k,
                Err(e) => {
                    proof { lemma_step_fail(done, c1, seq![c2] + (seq![c3] + tail), nm); }
                    return Err(e);
                },
            };
            proof {
                lemma_step_pass(done, c1, seq![c2] + (seq![c3] + tail), nm);
                done = done.push(c1);
            }
            let coolant = match lookup(names, &j.coolant_node) {
                Ok(k) => k,
                Err(e) => {
                    proof { lemma_step_fail(done, c2, seq![c3] + tail, nm); }
                    return Err(e);
                },
            };
            proof {
                lemma_step_pass(done, c2, seq![c3] + tail, nm);
                done = done.push(c2);
            }
            let fluid = match &j.fluid {
                FluidDecl::Props => FluidChoice::Props,
                FluidDecl::Named(n) => match fluid_preset(n) {
                    Some(p) => FluidChoice::Preset(p),
                    None => {
                        proof { lemma_step_fail(done, c3, tail, nm); }
                        let mut m = String::from_str("unknown coolant fluid `");
                        m.append(n.as_str());
                        m.append("` (known: water, ethylene_glycol_50, oil) — or give explicit `props`");
                        return Err(T1Error::Thermal(m));
                    },
                },
            };
            proof {
                lemma_step_pass(done, c3, tail, nm);
                done = done.push(c3);
                assert(done =~= jacket_checks(*decl));
            }
            Ok(Some(ResolvedJacket { housing, coolant, fluid }))
        },
        None => Ok(None),
    }
}

/// The cooling extras resolved: the coolant spec's node, the jacket, the air gap, copper feedback.
pub struct CoolingIdx {
    coolant_spec_idx: Option<usize>,
    jacket: Option<ResolvedJacket>,
    air_gap: Option<EdgeIdx>,
    cu_nodes: Option<Vec<usize>>,
}

#[verifier::spinoff_prover]
#[verifier::rlimit(40)]
fn resolve_cooling(decl: &NetworkDecl, names: &Vec<String>) -> (r: Result<CoolingIdx, T1Error>)
    requires
        views(names@) == node_names(*decl),
    ensures
        stage_result(r, cooling_checks(*decl), views(names@)),
        r matches Ok(ci) ==> {
            &&& match decl.cooling.coolant_node {
                Some(c) => ci.coolant_spec_idx == Some(idx(*decl, c@) as usize)
                    && idx(*decl, c@) < decl.nodes@.len(),
                None => ci.coolant_spec_idx is None,
            }
            &&& match decl.cooling.jacket {
                Some(j) => ci.jacket matches Some(rj) && rj.housing == idx(*decl, j.housing_node@)
                    && rj.coolant == idx(*decl, j.coolant_node@)
                    && rj.housing < decl.nodes@.len() && rj.coolant < decl.nodes@.len() && match j.fluid {
                        FluidDecl::Props => rj.fluid == FluidChoice::Props,
                        FluidDecl::Named(n) => rj.fluid == FluidChoice::Preset(spec_fluid_preset(n@)->Some_0),
                    },
                None => ci.jacket is None,
            }
            &&& match decl.cooling.air_gap {
                Some(p) => ci.air_gap matches Some(e) && edge_of(*decl, p, e)
                    && e.i < decl.nodes@.len() && e.j < decl.nodes@.len(),
                None => ci.air_gap is None,
            }
            &&& match decl.cu_feedback {
                Some(l) => ci.cu_nodes matches Some(cu) && cu@.len() == l@.len()
                    && forall|i: int| 0 <= i < l@.len() ==> #[trigger] cu@[i] == idx(*decl, l@[i]@)
                        && cu@[i] < decl.nodes@.len(),
                None => ci.cu_nodes is None,
            }
        },
{
    let ghost nm = views(names@);
    let ghost s1 = match &decl.cooling.coolant_node {
        Some(c) => seq![Check::Known(c@)],
        None => Seq::<Check>::empty(),
    };
    let ghost s2 = jacket_checks(*decl);
    let ghost s3 = match &decl.cooling.air_gap {
        Some(p) => seq![Check::Known(p.a@), Check::Known(p.b@)],
        None => Seq::<Check>::empty(),
    };
    let ghost s4 = match &decl.cu_feedback {
        Some(l) => known_from(views(l@), 0),
        None => Seq::<Check>::empty(),
    };
    assert(cooling_checks(*decl) == s1 + s2 + s3 + s4);
    // The low-level coolant spec's node.
    let coolant_spec_idx = match &decl.cooling.coolant_node {
        Some(c) => match lookup(names, c) {
            Ok(k) => Some(k),
            Err(e) => {
                proof {
                    lemma_step_fail(Seq::empty(), Check::Known(c@), Seq::empty(), nm);
                    assert(Seq::<Check>::empty() + (seq![Check::Known(c@)] + Seq::<Check>::empty()) =~= s1);
                    lemma_first_failure_append(s1, s2 + s3 + s4, nm);
                    assert(s1 + s2 + s3 + s4 =~= s1 + (s2 + s3 + s4));
                }
                return Err(e);
            },
        },
        None => None,
    };
    proof {
        if let Some(c) = &decl.cooling.coolant_node {
            lemma_step_pass(Seq::empty(), Check::Known(c@), Seq::empty(), nm);
            assert(Seq::<Check>::empty().push(Check::Known(c@)) =~= s1);
        }
        assert(first_failure(s1, nm) is None);
    }
    // The jacket block.
    let rj = resolve_jacket(decl, names);
    proof {
        lemma_first_failure_append(s1, s2, nm);
        lemma_first_failure_append(s1 + s2, s3 + s4, nm);
        assert(s1 + s2 + s3 + s4 =~= (s1 + s2) + (s3 + s4));
    }
    let jacket = match rj {
        Ok(x) => x,
        Err(e) => { return Err(e); },
    };
    assert(first_failure(s1 + s2, nm) is None);
    // The air-gap edge.
    let air_gap = match &decl.cooling.air_gap {
        Some(p) => {
            let ghost ca = Check::Known(p.a@);
            let ghost cb = Check::Known(p.b@);
            assert(s1 + s2 + s3 + s4 =~= (s1 + s2) + (seq![ca] + (seq![cb] + s4)));
            let ghost mut done = s1 + s2;
            let ia = match lookup(names, &p.a) {
                Ok(k) => k,
                Err(e) => {
                    proof { lemma_step_fail(done, ca, seq![cb] + s4, nm); }
                    return Err(e);
                },
            };
            proof {
                lemma_step_pass(done, ca, seq![cb] + s4, nm);
                done = done.push(ca);
            }
            let ib = match lookup(names, &p.b) {
                Ok(k) => k,
                Err(e) => {
                    proof { lemma_step_fail(done, cb, s4, nm); }
                    return Err(e);
                },
            };
            proof {
                lemma_step_pass(done, cb, s4, nm);
                done = done.push(cb);
                assert(done =~= s1 + s2 + s3);
            }
            Some(EdgeIdx { i: ia, j: ib })
        },
        None => {
            assert(s1 + s2 + s3 =~= s1 + s2);
            None
        },
    };
    assert(first_failure(s1 + s2 + s3, nm) is None);
    // Copper feedback.
    let cu_nodes = match &decl.cu_feedback {
        Some(l) => {
            let r = resolve_names(names, l);
            proof { lemma_first_failure_append(s1 + s2 + s3, s4, nm); }
            match r {
                Ok(v) => Some(v),
                Err(e) => { return Err(e); },
            }
        },
        None => {
            proof { lemma_first_failure_append(s1 + s2 + s3, s4, nm); }
            None
        },
    };
    Ok(CoolingIdx { coolant_spec_idx, jacket, air_gap, cu_nodes })
}

fn too_many_message(n: usize, max: usize) -> (m: String)
    ensures
        m@ == too_many_msg(n as nat, max as nat),
{
    let mut m = String::new();
    push_decimal(&mut m, n);
    m.append(" nodes exceeds the integrator limit of ");
    push_decimal(&mut m, max);
    m
}

/// The requirements before the capacity stage: the node count, the ambient node, the coolant node.
fn resolve_head(decl: &NetworkDecl, names: &Vec<String>) -> (r: Result<(usize, Option<usize>), T1Error>)
    requires
        views(names@) == node_names(*decl),
    ensures
        stage_result(r, head_checks(*decl), views(names@)),
        r matches Ok((a, c)) ==> spec_position(node_names(*decl), decl.cooling.ambient_node@) == Some(a as int)
            && a < decl.nodes@.len()
            && match coolant_name(*decl) {
                Some(cn) => c matches Some(ci) && spec_position(node_names(*decl), cn) == Some(ci as int)
                    && ci < decl.nodes@.len(),
                None => c is None,
            },
{
    let ghost nm = views(names@);
    let ghost c0 = Check::Holds(decl.nodes@.len() <= decl.max_nodes, too_many_msg(decl.nodes@.len(), decl.max_nodes as nat));
    let ghost c1 = Check::Known(decl.cooling.ambient_node@);
    let ghost tail = match coolant_name(*decl) {
        Some(c) => seq![Check::Known(c)],
        None => Seq::<Check>::empty(),
    };
    assert(head_checks(*decl) =~= Seq::<Check>::empty() + (seq![c0] + (seq![c1] + tail)));
    let ghost mut done = Seq::<Check>::empty();
    if decl.nodes.len() > decl.max_nodes {
        proof { lemma_step_fail(done, c0, seq![c1] + tail, nm); }
        return Err(T1Error::Thermal(too_many_message(decl.nodes.len(), decl.max_nodes)));
    }
    proof {
        lemma_step_pass(done, c0, seq![c1] + tail, nm);
        done = done.push(c0);
    }
    let ambient = match lookup(names, &decl.cooling.ambient_node) {
        Ok(k) => k,
        Err(e) => {
            proof { lemma_step_fail(done, c1, tail, nm); }
            return Err(e);
        },
    };
    proof {
        lemma_step_pass(done, c1, tail, nm);
        done = done.push(c1);
    }
    let cname: Option<&String> = match &decl.cooling.coolant_node {
        Some(c) => Some(c),
        None => match &decl.cooling.jacket {
            Some(j) => Some(&j.coolant_node),
            None => None,
        },
    };
    let coolant = match cname {
        Some(c) => {
            assert(tail == seq![Check::Known(c@)]);
            match lookup(names, c) {
                Ok(k) => {
                    proof {
                        lemma_step_pass(done, Check::Known(c@), Seq::empty(), nm);
                        assert(done + (tail + Seq::<Check>::empty()) =~= head_checks(*decl));
                        assert(done.push(Check::Known(c@)) =~= head_checks(*decl));
                    }
                    Some(k)
                },
                Err(e) => {
                    proof {
                        lemma_step_fail(done, Check::Known(c@), Seq::empty(), nm);
                        assert(done + (tail + Seq::<Check>::empty()) =~= head_checks(*decl));
                    }
                    return Err(e);
                },
            }
        },
        None => {
            assert(done =~= head_checks(*decl));
            None
        },
    };
    Ok((ambient, coolant))
}

/// Resolve an `.emotor` network declaration: every node reference becomes the index of the first
/// node with that name, each heat capacity and conductance is attributed (explicit, or the mass
/// heuristic for the node role / role pair), the coolant comes from the `coolant` spec or a
/// `jacket` (not both), and the winding node is the first with role `winding`. Validation stops at
/// the first failing requirement in the order of [`checks`], whose message is the error.
#[verifier::spinoff_prover]
#[verifier::rlimit(60)]
pub fn resolve_network(decl: &NetworkDecl) -> (r: Result<ResolvedNetwork, T1Error>)
    ensures
        match r {
            Ok(net) => first_failure(checks(*decl), node_names(*decl)) is None && resolved_matches(*decl, net)
                && indices_below(net, decl.nodes@.len() as int),
            Err(e) => e is Thermal && first_failure(checks(*decl), node_names(*decl)) == Some(e->Thermal_0@),
        },
{
    let names = node_name_list(decl);
    let ghost nm = node_names(*decl);
    let ghost h = head_checks(*decl);
    let ghost cap = capacity_from(*decl, 0);
    let ghost cond = conductance_from(*decl, 0);
    let ghost conv = pairs_from(decl.convection@, 0);
    let ghost cool = cooling_checks(*decl);
    let ghost wind = seq![Check::Holds(has_winding(*decl), no_winding_msg())];
    let ghost rts = known_from(views(decl.routes@), 0);
    let ghost ini = known_from(views(decl.initial_nodes@), 0);
    assert(checks(*decl) == h + cap + cond + conv + cool + wind + rts + ini);
    let rh = resolve_head(decl, &names);
    proof {
        lemma_first_failure_append(h, cap + cond + conv + cool + wind + rts + ini, nm);
        assert(h + cap + cond + conv + cool + wind + rts + ini =~= h + (cap + cond + conv + cool + wind + rts + ini));
    }
    let (ambient_idx, coolant_idx) = match rh {
        Ok(x) => x,
        Err(e) => { return Err(e); },
    };
    let ghost p1 = h;
    let rc = resolve_capacities(decl, &names, ambient_idx, coolant_idx);
    proof {
        lemma_first_failure_append(p1, cap, nm);
        lemma_first_failure_append(p1 + cap, cond + conv + cool + wind + rts + ini, nm);
        assert(h + cap + cond + conv + cool + wind + rts + ini =~= (p1 + cap) + (cond + conv + cool + wind + rts + ini));
    }
    let capacity = match rc {
        Ok(x) => x,
        Err(e) => { return Err(e); },
    };
    let ghost p2 = p1 + cap;
    let rd = resolve_conductances(decl, &names);
    proof {
        lemma_first_failure_append(p2, cond, nm);
        lemma_first_failure_append(p2 + cond, conv + cool + wind + rts + ini, nm);
        assert(h + cap + cond + conv + cool + wind + rts + ini =~= (p2 + cond) + (conv + cool + wind + rts + ini));
    }
    let (conductances, conductance_sources) = match rd {
        Ok(x) => x,
        Err(e) => { return Err(e); },
    };
    let ghost p3 = p2 + cond;
    let rv = resolve_pairs(&names, &decl.convection);
    proof {
        lemma_first_failure_append(p3, conv, nm);
        lemma_first_failure_append(p3 + conv, cool + wind + rts + ini, nm);
        assert(h + cap + cond + conv + cool + wind + rts + ini =~= (p3 + conv) + (cool + wind + rts + ini));
    }
    let convection = match rv {
        Ok(x) => x,
        Err(e) => { return Err(e); },
    };
    let ghost p4 = p3 + conv;
    let rcool = resolve_cooling(decl, &names);
    proof {
        lemma_first_failure_append(p4, cool, nm);
        lemma_first_failure_append(p4 + cool, wind + rts + ini, nm);
        assert(h + cap + cond + conv + cool + wind + rts + ini =~= (p4 + cool) + (wind + rts + ini));
    }
    let cooling = match rcool {
        Ok(x) => x,
        Err(e) => { return Err(e); },
    };
    let ghost p5 = p4 + cool;
    let winding_idx = match find_winding(decl) {
        Some(w) => w,
        None => {
            proof {
                lemma_step_fail(p5, wind[0], rts + ini, nm);
                assert(seq![wind[0]] + (rts + ini) =~= wind + rts + ini);
                assert(h + cap + cond + conv + cool + wind + rts + ini =~= p5 + (wind + rts + ini));
            }
            return Err(T1Error::Thermal(String::from_str("no node has role `winding`")));
        },
    };
    proof {
        lemma_step_pass(p5, wind[0], Seq::empty(), nm);
        assert(p5.push(wind[0]) =~= p5 + wind);
    }
    let ghost p6 = p5 + wind;
    let rr = resolve_names(&names, &decl.routes);
    proof {
        lemma_first_failure_append(p6, rts, nm);
        lemma_first_failure_append(p6 + rts, ini, nm);
        assert(h + cap + cond + conv + cool + wind + rts + ini =~= (p6 + rts) + ini);
    }
    let routes = match rr {
        Ok(x) => x,
        Err(e) => { return Err(e); },
    };
    let ghost p7 = p6 + rts;
    let ri = resolve_names(&names, &decl.initial_nodes);
    proof {
        lemma_first_failure_append(p7, ini, nm);
        assert(h + cap + cond + conv + cool + wind + rts + ini =~= p7 + ini);
    }
    let initial = match ri {
        Ok(x) => x,
        Err(e) => { return Err(e); },
    };
    let CoolingIdx { coolant_spec_idx, jacket, air_gap, cu_nodes } = cooling;
    let net = ResolvedNetwork {
        ambient_idx,
        coolant_idx,
        capacity,
        conductances,
        conductance_sources,
        convection,
        coolant_spec_idx,
        jacket,
        air_gap,
        cu_nodes,
        winding_idx,
        routes,
        initial,
    };
    proof {
        assert forall|i: int| 0 <= i < decl.convection@.len() implies edge_of(*decl, decl.convection@[i], #[trigger] net.convection@[i]) by {}
        assert forall|i: int| 0 <= i < decl.routes@.len() implies #[trigger] net.routes@[i] == idx(*decl, decl.routes@[i]@) by {
            assert(views(decl.routes@)[i] == decl.routes@[i]@);
        }
        assert forall|i: int| 0 <= i < decl.initial_nodes@.len() implies #[trigger] net.initial@[i] == idx(*decl, decl.initial_nodes@[i]@) by {
            assert(views(decl.initial_nodes@)[i] == decl.initial_nodes@[i]@);
        }
    }
    Ok(net)
}

} // verus!
