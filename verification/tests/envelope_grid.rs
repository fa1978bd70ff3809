use outlap_qss::grid::{fibre_march_order, sens_bracket, sens_sampled, EnvelopeGrid};

#[test]
fn every_second_node_plus_the_last_is_sampled() {
    let n = 8;
    let sampled: Vec<bool> = (0..n).map(|i| sens_sampled(i, n)).collect();
    assert_eq!(sampled, vec![true, false, true, false, true, false, true, true]);
    let odd: Vec<bool> = (0..5).map(|i| sens_sampled(i, 5)).collect();
    assert_eq!(odd, vec![true, false, true, false, true]);
}

#[test]
fn fibre_ends_are_always_sampled() {
    for n in 1..20 {
        assert!(sens_sampled(0, n));
        assert!(sens_sampled(n - 1, n));
    }
}

#[test]
fn unsampled_nodes_interpolate_between_neighbours() {
    let n = 9;
    for i in (0..n).filter(|&i| !sens_sampled(i, n)) {
        assert_eq!(sens_bracket(i, n), (i - 1, i + 1));
    }
}

#[test]
fn bracket_at_the_ends_falls_back() {
    assert_eq!(sens_bracket(0, 5), (0, 2));
    assert_eq!(sens_bracket(4, 5), (2, 4));
    assert_eq!(sens_bracket(0, 1), (0, 0));
}

#[test]
fn grid_resolution_floors() {
    let g = EnvelopeGrid::from_resolution(0, 1, 1);
    assert_eq!((g.nv, g.nax, g.ngn), (2, 3, 2));
    let g = EnvelopeGrid::from_resolution(24, 15, 5);
    assert_eq!((g.nv, g.nax, g.ngn), (24, 15, 5));
    assert_eq!(g.n_nodes(), 24 * 15 * 5);
}

#[test]
fn node_indices_are_row_major_and_distinct() {
    let g = EnvelopeGrid::from_resolution(3, 4, 2);
    assert_eq!(g.node(0, 0, 0), 0);
    assert_eq!(g.node(0, 0, 1), 1);
    assert_eq!(g.node(0, 1, 0), 2);
    assert_eq!(g.node(1, 0, 0), 8);
    assert_eq!(g.node(2, 3, 1), 23);
    let mut all = Vec::new();
    for iv in 0..3 {
        for iax in 0..4 {
            for ign in 0..2 {
                all.push(g.node(iv, iax, ign));
            }
        }
    }
    all.sort_unstable();
    assert_eq!(all, (0..24).collect::<Vec<_>>());
    assert_eq!(g.cap_index(2, 1), 5);
}

#[test]
fn march_goes_up_then_down_from_the_seed() {
    assert_eq!(
        fibre_march_order(2, 5),
        vec![(2, None), (3, Some(2)), (4, Some(3)), (1, Some(2)), (0, Some(1))]
    );
    assert_eq!(fibre_march_order(0, 3), vec![(0, None), (1, Some(0)), (2, Some(1))]);
    assert_eq!(fibre_march_order(2, 3), vec![(2, None), (1, Some(2)), (0, Some(1))]);
}

#[test]
fn march_solves_each_node_once_from_a_solved_neighbour() {
    let n = 11;
    for i0 in 0..n {
        let order = fibre_march_order(i0, n);
        let mut seen = vec![false; n];
        for (k, (node, hint)) in order.iter().enumerate() {
            assert!(!seen[*node]);
            match hint {
                None => assert_eq!(k, 0),
                Some(h) => {
                    assert!(seen[*h]);
                    assert!(*h + 1 == *node || *node + 1 == *h);
                }
            }
            seen[*node] = true;
        }
        assert!(seen.iter().all(|&s| s));
    }
}
