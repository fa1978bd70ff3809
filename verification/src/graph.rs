//! Drivetrain-graph helpers shared by the T0 and T1 reductions:
//!
//! * [`governed_unit_ids`] — the unit ids a `policy:` overlay governs (excluded from the mechanical
//!   traction/regen ceilings; driven instead by the energy-manager force-adder), and
//! * [`flatten_chain`] — a source's ordered coupler sequence + terminal wheels, formed from its
//!   private `path` followed by the shared graph couplers from its `output` node down to wheels.
//!
//! A `wheels:`-sugar source (no `output`) flattens to exactly its private `(path, wheels)`.
use vstd::prelude::*;
use crate::drivetrain::{CouplerEdge, DriveUnit, Drivetrain, Vehicle, Wheel};
use crate::strings::{contains_name, views};

verus! {

/// One coupler of a flattened drive chain: either position `k` of the unit's private path or
/// shared-graph coupler `k` (in `Drivetrain::couplers` order).
#[derive(Clone, Copy, Debug, PartialEq, Eq, Structural)]
pub enum ChainLink {
    /// The unit's private path coupler at this index.
    Path(usize),
    /// The shared-graph coupler at this index.
    Edge(usize),
}

/// The private-path links `Path(0) .. Path(n - 1)`.
pub open spec fn path_links(n: int) -> Seq<ChainLink>
    decreases n,
{
    if n <= 0 {
        Seq::empty()
    } else {
        path_links(n - 1).push(ChainLink::Path((n - 1) as usize))
    }
}

/// The shared couplers among the first `k` whose `from` node is `node`, as links, in order.
pub open spec fn out_links(edges: Seq<CouplerEdge>, node: Seq<char>, k: int) -> Seq<ChainLink>
    decreases k,
{
    if k <= 0 {
        Seq::empty()
    } else if edges[k - 1].from@ == node {
        out_links(edges, node, k - 1).push(ChainLink::Edge((k - 1) as usize))
    } else {
        out_links(edges, node, k - 1)
    }
}

/// The wheels driven by the first `k` shared couplers leaving `node`, concatenated in order.
pub open spec fn out_wheels(edges: Seq<CouplerEdge>, node: Seq<char>, k: int) -> Seq<Wheel>
    decreases k,
{
    if k <= 0 {
        Seq::empty()
    } else if edges[k - 1].from@ == node {
        out_wheels(edges, node, k - 1) + edges[k - 1].wheels@
    } else {
        out_wheels(edges, node, k - 1)
    }
}

/// The `to` nodes of the first `k` shared couplers leaving `node`, in order.
pub open spec fn out_targets(edges: Seq<CouplerEdge>, node: Seq<char>, k: int) -> Seq<Seq<char>>
    decreases k,
{
    if k <= 0 {
        Seq::empty()
    } else if edges[k - 1].from@ == node {
        match edges[k - 1].to {
            Some(t) => out_targets(edges, node, k - 1).push(t@),
            None => out_targets(edges, node, k - 1),
        }
    } else {
        out_targets(edges, node, k - 1)
    }
}

/// The number of the first `k` shared couplers whose `from` node has not been visited.
pub open spec fn pending(edges: Seq<CouplerEdge>, visited: Set<Seq<char>>, k: int) -> nat
    decreases k,
{
    if k <= 0 {
        0
    } else if visited.contains(edges[k - 1].from@) {
        pending(edges, visited, k - 1)
    } else {
        pending(edges, visited, k - 1) + 1
    }
}

/// Visiting a fresh node retires exactly its outgoing couplers from the pending count, and pushes
/// at most one target per outgoing coupler.
pub proof fn lemma_visit_counts(edges: Seq<CouplerEdge>, visited: Set<Seq<char>>, node: Seq<char>, k: int)
    requires
        !visited.contains(node),
        0 <= k <= edges.len(),
    ensures
        pending(edges, visited.insert(node), k) + out_links(edges, node, k).len() == pending(edges, visited, k),
        out_targets(edges, node, k).len() <= out_links(edges, node, k).len(),
    decreases k,
{
    if k > 0 {
        lemma_visit_counts(edges, visited, node, k - 1);
    }
}

/// The measure the graph walk decreases.
pub open spec fn walk_measure(edges: Seq<CouplerEdge>, queue: Seq<Seq<char>>, visited: Set<Seq<char>>) -> nat {
    2 * pending(edges, visited, edges.len() as int) + queue.len()
}

/// The depth-first walk of the shared graph: pop the last queued node; if already visited skip it,
/// otherwise append its outgoing couplers (declaration order) and their wheels, and queue their
/// targets. Returns the appended links and wheels.
pub open spec fn walk(edges: Seq<CouplerEdge>, queue: Seq<Seq<char>>, visited: Set<Seq<char>>) -> (Seq<ChainLink>, Seq<Wheel>)
    decreases walk_measure(edges, queue, visited),
{
    if queue.len() == 0 {
        (Seq::empty(), Seq::empty())
    } else {
        let node = queue.last();
        let rest = queue.drop_last();
        if visited.contains(node) {
            walk(edges, rest, visited)
        } else {
            let n = edges.len() as int;
            proof {
                lemma_visit_counts(edges, visited, node, n);
            }
            let r = walk(edges, rest + out_targets(edges, node, n), visited.insert(node));
            (out_links(edges, node, n) + r.0, out_wheels(edges, node, n) + r.1)
        }
    }
}

/// The flattened chain of a drive unit: its private path links, then — for a unit with an
/// `output` node — the shared-graph walk from that node.
pub open spec fn spec_flatten(dt: Drivetrain, unit: DriveUnit) -> (Seq<ChainLink>, Seq<Wheel>) {
    match unit.output {
        None => (path_links(unit.path@.len() as int), unit.wheels@),
        Some(start) => {
            let w = walk(dt.couplers@, seq![start@], Set::empty());
            (path_links(unit.path@.len() as int) + w.0, w.1)
        },
    }
}

proof fn lemma_path_links_len(n: int)
    requires
        n >= 0,
    ensures
        path_links(n).len() == n,
        forall|k: int| 0 <= k < n ==> path_links(n)[k] == ChainLink::Path(k as usize),
    decreases n,
{
    if n > 0 {
        lemma_path_links_len(n - 1);
    }
}

/// Flatten a source's drive chain: the ordered couplers from the source shaft to the wheels it
/// drives — its private `path` followed by the shared couplers from its `output` node down to
/// wheels, in graph order — plus those terminal wheels. Each shared node is expanded at most once.
pub fn flatten_chain(dt: &Drivetrain, unit: &DriveUnit) -> (r: (Vec<ChainLink>, Vec<Wheel>))
    ensures
        (r.0@, r.1@) == spec_flatten(*dt, *unit),
        unit.output is None ==> r.0@ == path_links(unit.path@.len() as int) && r.1@ == unit.wheels@,
{
    let mut chain: Vec<ChainLink> = Vec::new();
    let mut k: usize = 0;
    while k < unit.path.len()
        invariant
            0 <= k <= unit.path.len(),
            chain@ == path_links(k as int),
        decreases unit.path.len() - k,
    {
        chain.push(ChainLink::Path(k));
        k = k + 1;
    }
    let mut wheels: Vec<Wheel> = Vec::new();
    match &unit.output {
        None => {
            let mut j: usize = 0;
            while j < unit.wheels.len()
                invariant
                    0 <= j <= unit.wheels.len(),
                    wheels@ == unit.wheels@.subrange(0, j as int),
                decreases unit.wheels.len() - j,
            {
                wheels.push(unit.wheels[j]);
                j = j + 1;
            }
            assert(unit.wheels@.subrange(0, unit.wheels@.len() as int) == unit.wheels@);
        },
        Some(start) => {
            let ghost edges = dt.couplers@;
            let ghost links0 = chain@;
            let ghost total = walk(edges, seq![start@], Set::empty());
            let mut visited: Vec<String> = Vec::new();
            let mut queue: Vec<String> = Vec::new();
            queue.push(start.clone());
            proof {
                assert(views(queue@) == seq![start@]);
                assert(views(visited@).to_set() == Set::<Seq<char>>::empty());
            }
            while queue.len() > 0
                invariant
                    edges == dt.couplers@,
                    chain@.len() >= links0.len(),
                    chain@.subrange(0, links0.len() as int) == links0,
                    total == walk(edges, seq![start@], Set::empty()),
                    total.0 == chain@.subrange(links0.len() as int, chain@.len() as int)
                        + walk(edges, views(queue@), views(visited@).to_set()).0,
                    total.1 == wheels@ + walk(edges, views(queue@), views(visited@).to_set()).1,
                decreases walk_measure(edges, views(queue@), views(visited@).to_set()),
            {
                let ghost q0 = views(queue@);
                let ghost vset = views(visited@).to_set();
                let ghost chain0 = chain@;
                let ghost wheels0 = wheels@;
                let node = queue.pop().unwrap();
                proof {
                    assert(views(queue@) == q0.drop_last());
                    assert(node@ == q0.last());
                }
                let seen = contains_name(&visited, &node);
                if seen {
                    proof {
                        assert(vset.contains(node@));
                    }
                } else {
                    proof {
                        assert(!vset.contains(node@));
                        lemma_visit_counts(edges, vset, node@, edges.len() as int);
                    }
                    let ghost rest = views(queue@);
                    let ghost vprev = visited@;
                    visited.push(node.clone());
                    proof {
                        assert(views(visited@) =~= views(vprev).push(node@));
                        views(vprev).lemma_push_to_set_commute(node@);
                    }
                    let mut j: usize = 0;
                    while j < dt.couplers.len()
                        invariant
                            0 <= j <= dt.couplers.len(),
                            edges == dt.couplers@,
                            chain@ == chain0 + out_links(edges, node@, j as int),
                            wheels@ == wheels0 + out_wheels(edges, node@, j as int),
                            views(queue@) == rest + out_targets(edges, node@, j as int),
                            views(visited@).to_set() == vset.insert(node@),
                        decreases dt.couplers.len() - j,
                    {
                        let edge = &dt.couplers[j];
                        if edge.from == node {
                            chain.push(ChainLink::Edge(j));
                            let mut w: usize = 0;
                            let ghost wheels_before = wheels@;
                            while w < edge.wheels.len()
                                invariant
                                    0 <= w <= edge.wheels.len(),
                                    wheels@ == wheels_before + edge.wheels@.subrange(0, w as int),
                                decreases edge.wheels.len() - w,
                            {
                                wheels.push(edge.wheels[w]);
                                proof {
                                    assert(edge.wheels@.subrange(0, w + 1) == edge.wheels@.subrange(0, w as int).push(edge.wheels@[w as int]));
                                }
                                w = w + 1;
                            }
                            proof {
                                assert(edge.wheels@.subrange(0, edge.wheels@.len() as int) == edge.wheels@);
                            }
                            match &edge.to {
                                Some(t) => {
                                    let ghost qprev = queue@;
                                    queue.push(t.clone());
                                    proof {
                                        assert(views(queue@) =~= views(qprev).push(t@));
                                        assert(views(queue@) =~= rest + out_targets(edges, node@, j + 1));
                                    }
                                },
                                None => {},
                            }
                        }
                        j = j + 1;
                    }
                }
                proof {
                    let tail = chain@.subrange(links0.len() as int, chain@.len() as int);
                    let tail0 = chain0.subrange(links0.len() as int, chain0.len() as int);
                    if !seen {
                        let n = edges.len() as int;
                        assert(tail =~= tail0 + out_links(edges, node@, n));
                    } else {
                        assert(tail =~= tail0);
                    }
                }
            }
            proof {
                assert(views(queue@).len() == 0);
            }
        },
    }
    proof {
        lemma_path_links_len(unit.path@.len() as int);
        if unit.output is Some {
            let l = path_links(unit.path@.len() as int);
            assert(chain@ =~= l + chain@.subrange(l.len() as int, chain@.len() as int));
        }
    }
    (chain, wheels)
}

proof fn lemma_out_links(edges: Seq<CouplerEdge>, node: Seq<char>, k: int)
    requires
        0 <= k <= edges.len(),
        edges.len() <= usize::MAX,
    ensures
        forall|a: int| 0 <= a < out_links(edges, node, k).len() ==> {
            let l = #[trigger] out_links(edges, node, k)[a];
            &&& l is Edge
            &&& 0 <= l->Edge_0 < k
            &&& edges[l->Edge_0 as int].from@ == node
        },
        out_links(edges, node, k).no_duplicates(),
    decreases k,
{
    if k > 0 {
        lemma_out_links(edges, node, k - 1);
        let prev = out_links(edges, node, k - 1);
        if edges[k - 1].from@ == node {
            let cur = out_links(edges, node, k);
            assert(cur == prev.push(ChainLink::Edge((k - 1) as usize)));
            assert forall|a: int, b: int| 0 <= a < b < cur.len() implies cur[a] != cur[b] by {
                if b == prev.len() {
                    assert(cur[a] == prev[a]);
                    assert(cur[b] == ChainLink::Edge((k - 1) as usize));
                    assert(prev[a]->Edge_0 < k - 1);
                } else {
                    assert(cur[a] == prev[a] && cur[b] == prev[b]);
                }
            }
        }
    }
}

proof fn lemma_walk_links(edges: Seq<CouplerEdge>, queue: Seq<Seq<char>>, visited: Set<Seq<char>>)
    requires
        edges.len() <= usize::MAX,
    ensures
        forall|a: int| 0 <= a < walk(edges, queue, visited).0.len() ==> {
            let l = #[trigger] walk(edges, queue, visited).0[a];
            &&& l is Edge
            &&& 0 <= l->Edge_0 < edges.len()
            &&& !visited.contains(edges[l->Edge_0 as int].from@)
        },
        walk(edges, queue, visited).0.no_duplicates(),
    decreases walk_measure(edges, queue, visited),
{
    if queue.len() > 0 {
        let node = queue.last();
        let rest = queue.drop_last();
        let n = edges.len() as int;
        if visited.contains(node) {
            lemma_walk_links(edges, rest, visited);
        } else {
            lemma_visit_counts(edges, visited, node, n);
            let v2 = visited.insert(node);
            let q2 = rest + out_targets(edges, node, n);
            lemma_walk_links(edges, q2, v2);
            lemma_out_links(edges, node, n);
            let mine = out_links(edges, node, n);
            let r = walk(edges, q2, v2).0;
            let all = walk(edges, queue, visited).0;
            assert(all == mine + r);
            assert forall|a: int| 0 <= a < all.len() implies {
                let l = #[trigger] all[a];
                &&& l is Edge
                &&& 0 <= l->Edge_0 < edges.len()
                &&& !visited.contains(edges[l->Edge_0 as int].from@)
            } by {
                if a < mine.len() {
                    assert(all[a] == mine[a]);
                } else {
                    assert(all[a] == r[a - mine.len()]);
                }
            }
            assert forall|a: int, b: int| 0 <= a < b < all.len() implies all[a] != all[b] by {
                if b < mine.len() {
                    assert(all[a] == mine[a] && all[b] == mine[b]);
                } else if a >= mine.len() {
                    assert(all[a] == r[a - mine.len()] && all[b] == r[b - mine.len()]);
                } else {
                    assert(all[a] == mine[a] && all[b] == r[b - mine.len()]);
                    assert(edges[all[a]->Edge_0 as int].from@ == node);
                    assert(!v2.contains(edges[all[b]->Edge_0 as int].from@));
                }
            }
        }
    }
}

/// No coupler enters a flattened chain twice: every private-path position appears once, and each
/// shared node is expanded at most once, so each shared coupler appears at most once.
pub proof fn lemma_flatten_no_repeated_coupler(dt: Drivetrain, unit: DriveUnit)
    ensures
        spec_flatten(dt, unit).0.no_duplicates(),
        forall|a: int| 0 <= a < spec_flatten(dt, unit).0.len() ==> match #[trigger] spec_flatten(dt, unit).0[a] {
            ChainLink::Path(k) => k < unit.path@.len(),
            ChainLink::Edge(k) => k < dt.couplers@.len(),
        },
{
    let n = unit.path@.len() as int;
    assert(unit.path.len() == n && dt.couplers.len() == dt.couplers@.len());
    lemma_path_links_len(n);
    let pl = path_links(n);
    match unit.output {
        None => {
            assert forall|a: int, b: int| 0 <= a < b < pl.len() implies pl[a] != pl[b] by {
                assert(pl[a] == ChainLink::Path(a as usize) && pl[b] == ChainLink::Path(b as usize));
            }
        },
        Some(start) => {
            let w = walk(dt.couplers@, seq![start@], Set::empty());
            lemma_walk_links(dt.couplers@, seq![start@], Set::empty());
            let all = pl + w.0;
            assert(spec_flatten(dt, unit).0 == all);
            assert forall|a: int| 0 <= a < all.len() implies match #[trigger] all[a] {
                ChainLink::Path(k) => k < unit.path@.len(),
                ChainLink::Edge(k) => k < dt.couplers@.len(),
            } by {
                if a >= n {
                    assert(all[a] == w.0[a - n]);
                }
            }
            assert forall|a: int, b: int| 0 <= a < b < all.len() implies all[a] != all[b] by {
                if b < n {
                    assert(all[a] == pl[a] && all[b] == pl[b]);
                    assert(pl[a] == ChainLink::Path(a as usize) && pl[b] == ChainLink::Path(b as usize));
                } else if a >= n {
                    assert(all[a] == w.0[a - n] && all[b] == w.0[b - n]);
                } else {
                    assert(all[a] == pl[a] && all[b] == w.0[b - n]);
                }
            }
        },
    }
}

/// The governed unit ids as a set (empty when there is no policy).
pub open spec fn spec_governed(spec: Vehicle) -> Set<Seq<char>> {
    match spec.policy {
        Some(p) => views(p.governs@).to_set(),
        None => Set::empty(),
    }
}

/// The set of `drivetrain.units[]` ids a `policy:` overlay governs (empty when there is no
/// policy), each listed once.
pub fn governed_unit_ids(spec: &Vehicle) -> (r: Vec<String>)
    ensures
        views(r@).to_set() == spec_governed(*spec),
        views(r@).no_duplicates(),
{
    let mut out: Vec<String> = Vec::new();
    match &spec.policy {
        None => {
            assert(views(out@).to_set() =~= Set::<Seq<char>>::empty());
        },
        Some(p) => {
            let mut i: usize = 0;
            while i < p.governs.len()
                invariant
                    0 <= i <= p.governs.len(),
                    views(out@).to_set() == views(p.governs@.subrange(0, i as int)).to_set(),
                    views(out@).no_duplicates(),
                decreases p.governs.len() - i,
            {
                let id = &p.governs[i];
                let ghost prev = views(out@);
                let ghost sub = views(p.governs@.subrange(0, i as int));
                assert(views(p.governs@.subrange(0, i + 1)) == sub.push(id@));
                if !contains_name(&out, id) {
                    out.push(id.clone());
                    proof {
                        assert(views(out@) == prev.push(id@));
                        prev.lemma_push_to_set_commute(id@);
                        sub.lemma_push_to_set_commute(id@);
                        assert forall|a: int, b: int| 0 <= a < b < views(out@).len() implies views(out@)[a] != views(out@)[b] by {
                            if b == prev.len() {
                                assert(prev[a] == views(out@)[a]);
                                assert(prev.contains(prev[a]));
                            }
                        }
                    }
                } else {
                    proof {
                        sub.lemma_push_to_set_commute(id@);
                        assert(prev.to_set().contains(id@));
                        assert(prev.to_set().insert(id@) =~= prev.to_set());
                    }
                }
                i = i + 1;
            }
            assert(p.governs@.subrange(0, p.governs@.len() as int) == p.governs@);
        },
    }
    out
}

} // verus!
