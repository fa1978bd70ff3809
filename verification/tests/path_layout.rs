use outlap_qss::error::T0Error;
use outlap_qss::path::{
    backward_sweep, check_workspace, forward_sweep, segment_end, segments, segments_for,
    smooth_window, smoothing_applies, station_count, CURV_SMOOTH_RADIUS, MIN_STATIONS,
};

#[test]
fn segment_count_never_below_the_floor() {
    assert_eq!(MIN_STATIONS, 8);
    assert_eq!(segments_for(0), 8);
    assert_eq!(segments_for(3), 8);
    assert_eq!(segments_for(8), 8);
    assert_eq!(segments_for(2_350), 2_350);
}

#[test]
fn closed_loop_has_one_station_per_segment() {
    assert_eq!(station_count(10, true), 10);
    assert_eq!(segments(10, true), 10);
}

#[test]
fn open_path_has_one_more_station_than_segments() {
    assert_eq!(station_count(10, false), 11);
    assert_eq!(segments(11, false), 10);
}

#[test]
fn stations_round_trip_to_segments() {
    for n_seg in [8usize, 9, 50, 2_350] {
        for closed in [true, false] {
            assert_eq!(segments(station_count(n_seg, closed), closed), n_seg);
        }
    }
}

#[test]
fn closed_segment_ends_wrap_to_station_zero() {
    assert_eq!(segment_end(0, 10, true), 1);
    assert_eq!(segment_end(9, 10, true), 0);
}

#[test]
fn open_segment_ends_step_forward() {
    assert_eq!(segment_end(0, 11, false), 1);
    assert_eq!(segment_end(9, 11, false), 10);
}

#[test]
fn closed_segment_ends_cover_every_station_once() {
    let n = 12;
    let mut ends: Vec<usize> = (0..segments(n, true)).map(|s| segment_end(s, n, true)).collect();
    ends.sort_unstable();
    assert_eq!(ends, (0..n).collect::<Vec<_>>());
}

#[test]
fn smoothing_needs_a_full_window() {
    assert_eq!(CURV_SMOOTH_RADIUS, 6);
    assert!(smoothing_applies(13, 6));
    assert!(!smoothing_applies(12, 6));
    assert!(!smoothing_applies(100, 0));
    assert!(!smoothing_applies(0, 1));
    assert!(smoothing_applies(usize::MAX, 6));
}

#[test]
fn closed_window_wraps_around_the_loop() {
    assert_eq!(smooth_window(0, 20, 2, true), vec![18, 19, 0, 1, 2]);
    assert_eq!(smooth_window(19, 20, 2, true), vec![17, 18, 19, 0, 1]);
    assert_eq!(smooth_window(10, 20, 2, true), vec![8, 9, 10, 11, 12]);
}

#[test]
fn open_window_is_clipped_to_the_path() {
    assert_eq!(smooth_window(0, 20, 2, false), vec![0, 1, 2]);
    assert_eq!(smooth_window(1, 20, 2, false), vec![0, 1, 2, 3]);
    assert_eq!(smooth_window(19, 20, 2, false), vec![17, 18, 19]);
    assert_eq!(smooth_window(10, 20, 2, false), vec![8, 9, 10, 11, 12]);
}

#[test]
fn closed_window_has_no_repeated_station_at_the_minimum_length() {
    // 2·radius + 1 == n: the window covers the whole loop exactly once.
    let mut w = smooth_window(3, 13, 6, true);
    assert_eq!(w.len(), 13);
    assert_eq!(w[6], 3);
    w.sort_unstable();
    assert_eq!(w, (0..13).collect::<Vec<_>>());
}

#[test]
fn forward_sweep_wraps_from_the_slowest_station() {
    assert_eq!(forward_sweep(2, 4), vec![(2, 3), (3, 0), (0, 1), (1, 2)]);
}

#[test]
fn backward_sweep_wraps_back_to_the_slowest_station() {
    assert_eq!(backward_sweep(1, 4), vec![(1, 0), (0, 3), (3, 2), (2, 1)]);
}

#[test]
fn sweeps_update_every_station_once() {
    let n = 9;
    for i0 in 0..n {
        let mut f: Vec<usize> = forward_sweep(i0, n).iter().map(|p| p.1).collect();
        let mut b: Vec<usize> = backward_sweep(i0, n).iter().map(|p| p.1).collect();
        f.sort_unstable();
        b.sort_unstable();
        assert_eq!(f, (0..n).collect::<Vec<_>>());
        assert_eq!(b, (0..n).collect::<Vec<_>>());
    }
}

#[test]
fn single_station_sweep_stays_put() {
    assert_eq!(forward_sweep(0, 1), vec![(0, 0)]);
    assert_eq!(backward_sweep(0, 1), vec![(0, 0)]);
}

#[test]
fn workspace_must_match_the_path() {
    assert_eq!(check_workspace(5, 5), Ok(()));
    assert_eq!(
        check_workspace(4, 5),
        Err(T0Error::WorkspaceMismatch { workspace: 4, path: 5 })
    );
}
