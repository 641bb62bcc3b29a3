use shell_cast::streaming::ladder::{area, is_meaningfully_smaller, snapped_sizes, ResolutionLadder};

const MIN: (i32, i32) = (320, 180);
const MAX: (i32, i32) = (1920, 1080);

#[test]
fn the_ladder_runs_from_smallest_to_largest() {
    let sizes = snapped_sizes((1920, 1080), MIN, MAX);
    assert_eq!(sizes.last(), Some(&(1920, 1080)));
    for pair in sizes.windows(2) {
        assert!(area(pair[0]) < area(pair[1]), "not ascending: {sizes:?}");
    }
}

#[test]
fn neighbouring_steps_differ_by_at_least_15_percent_of_area() {
    let sizes = snapped_sizes((1920, 1080), MIN, MAX);
    for pair in sizes.windows(2) {
        assert!(
            is_meaningfully_smaller(pair[0], pair[1]),
            "steps too close: {:?} then {:?}",
            pair[0],
            pair[1]
        );
    }
}

#[test]
fn every_rung_keeps_the_source_aspect_ratio() {
    let sizes = snapped_sizes((1920, 1080), MIN, MAX);
    for size in sizes {
        let ratio = f64::from(size.0) / f64::from(size.1);
        assert!((ratio - 16.0 / 9.0).abs() < 0.05, "bad ratio for {size:?}");
    }
}

#[test]
fn a_source_smaller_than_the_maximum_is_not_scaled_up() {
    let sizes = snapped_sizes((1280, 720), MIN, MAX);
    assert_eq!(sizes.last(), Some(&(1280, 720)));
}

#[test]
fn a_floor_bound_link_steps_down_after_the_damping_period() {
    let now = 1_000_u64;
    let sizes = snapped_sizes((1920, 1080), MIN, MAX);
    let mut ladder = ResolutionLadder::new(sizes, (1920, 1080), now);
    assert_eq!(ladder.observe(true, false, now), None);
    let later = now + 4_000;
    let stepped = ladder.observe(true, false, later).unwrap();
    assert!(area(stepped) < area((1920, 1080)));
}

#[test]
fn headroom_must_be_proven_for_30s_before_stepping_up() {
    let now = 1_000_u64;
    let sizes = snapped_sizes((1920, 1080), MIN, MAX);
    let mut ladder = ResolutionLadder::new(sizes, (640, 360), now);
    let start = ladder.current().unwrap();
    let ten = now + 10_000;
    assert_eq!(ladder.observe(false, true, ten), None);
    let forty = now + 40_000;
    let stepped = ladder.observe(false, true, forty).unwrap();
    assert!(area(stepped) > area(start));
}

#[test]
fn a_gap_in_headroom_restarts_the_proving_period() {
    let now = 1_000_u64;
    let sizes = snapped_sizes((1920, 1080), MIN, MAX);
    let mut ladder = ResolutionLadder::new(sizes, (640, 360), now);
    let twenty = now + 20_000;
    assert_eq!(ladder.observe(false, true, twenty), None);
    let twenty_five = now + 25_000;
    assert_eq!(ladder.observe(false, false, twenty_five), None);
    let forty = now + 40_000;
    assert_eq!(ladder.observe(false, true, forty), None);
}

#[test]
fn the_ladder_stops_at_both_ends() {
    let now = 1_000_u64;
    let sizes = snapped_sizes((1920, 1080), MIN, MAX);
    let smallest = sizes.first().copied().unwrap();
    let mut ladder = ResolutionLadder::new(sizes, smallest, now);
    let later = now + 4_000;
    assert_eq!(ladder.observe(true, false, later), None);
}

#[test]
fn the_ladder_for_1080p_has_known_rungs() {
    let sizes = snapped_sizes((1920, 1080), MIN, MAX);
    assert_eq!(sizes.first(), Some(&(320, 180)));
    assert!(sizes.contains(&(1280, 720)));
}

#[test]
fn the_nearest_rung_is_taken_at_start() {
    let sizes = vec![(640, 360), (1280, 720), (1920, 1080)];
    let ladder = ResolutionLadder::new(sizes, (1300, 700), 0);
    assert_eq!(ladder.current(), Some((1280, 720)));
    let empty = ResolutionLadder::new(Vec::new(), (1300, 700), 0);
    assert_eq!(empty.current(), None);
}

#[test]
fn fifteen_percent_is_the_threshold() {
    assert!(is_meaningfully_smaller((85, 100), (100, 100)));
    assert!(!is_meaningfully_smaller((86, 100), (100, 100)));
}

#[test]
fn a_run_of_observations_moves_one_rung_at_a_time_and_damped() {
    let sizes = snapped_sizes((1920, 1080), MIN, MAX);
    let mut ladder = ResolutionLadder::new(sizes.clone(), (1920, 1080), 0);
    let top = sizes.len() - 1;
    let index_of = |s: (i32, i32)| sizes.iter().position(|&x| x == s).unwrap();
    assert_eq!(ladder.current(), Some(sizes[top]));
    // At the floor, but within the damping period: nothing.
    assert_eq!(ladder.observe(true, false, 1_000), None);
    // After it: one rung down, and the answer is the new current rung.
    let down = ladder.observe(true, false, 3_000);
    assert_eq!(down, Some(sizes[top - 1]));
    assert_eq!(ladder.current(), down);
    // Still at the floor right after the change: held.
    assert_eq!(ladder.observe(true, false, 4_000), None);
    // Headroom from 6 s on; no step up before 30 s of it.
    assert_eq!(ladder.observe(false, true, 6_000), None);
    assert_eq!(ladder.observe(false, true, 35_999), None);
    let up = ladder.observe(false, true, 36_000);
    assert_eq!(up, Some(sizes[top]));
    assert_eq!(index_of(up.unwrap()), index_of(down.unwrap()) + 1);
    // At the top rung headroom changes nothing.
    assert_eq!(ladder.observe(false, true, 100_000), None);
    assert!(ladder.current().is_some());
}
