use insane_livestock::steering::{decide_angle, is_to_the_right, score, TURN_STEP};
use insane_livestock::Point;

fn p(x: i32, y: i32, z: i32) -> Point {
    Point { x, y, z }
}

#[test]
fn neighbour_on_the_right_is_right() {
    // Facing -z with right pointing +x.
    assert!(is_to_the_right(p(0, 0, 0), p(1000, 0, 0), p(5000, 0, 0)));
    assert!(!is_to_the_right(p(0, 0, 0), p(1000, 0, 0), p(-5000, 0, 0)));
}

#[test]
fn neighbour_straight_ahead_counts_as_left() {
    assert!(!is_to_the_right(p(0, 0, 0), p(1000, 0, 0), p(0, 0, -5000)));
}

#[test]
fn symmetric_neighbours_do_not_turn() {
    let me = p(0, 3000, 0);
    let all = vec![me, p(10000, 3000, 0), p(-10000, 3000, 0)];
    assert_eq!(score(me, p(1000, 0, 0), &all), 0);
    assert_eq!(decide_angle(me, p(1000, 0, 0), &all), 0);
}

#[test]
fn crowd_on_the_right_turns_left() {
    let me = p(0, 0, 0);
    let all = vec![me, p(10000, 0, 0), p(-20000, 0, 0)];
    // 10^18 / 10^8 - 10^18 / (4 * 10^8)
    assert_eq!(score(me, p(1000, 0, 0), &all), 10_000_000_000 - 2_500_000_000);
    assert_eq!(decide_angle(me, p(1000, 0, 0), &all), TURN_STEP);
}

#[test]
fn crowd_on_the_left_turns_right() {
    let me = p(0, 0, 0);
    let all = vec![p(-10000, 0, 0), me, p(30000, 0, 0)];
    assert_eq!(decide_angle(me, p(1000, 0, 0), &all), -TURN_STEP);
}

#[test]
fn alone_does_not_turn() {
    let me = p(5000, 0, 5000);
    assert_eq!(score(me, p(0, 0, 1000), &vec![me]), 0);
    assert_eq!(decide_angle(me, p(0, 0, 1000), &vec![me]), 0);
}

#[test]
fn overlapping_agent_is_ignored() {
    let me = p(0, 0, 0);
    // 0.05 units away: squared distance 2500 < 10000.
    assert_eq!(score(me, p(1000, 0, 0), &vec![me, p(50, 0, 0)]), 0);
}

#[test]
fn far_apart_extremes_do_not_overflow() {
    let me = p(i32::MIN, i32::MIN, i32::MIN);
    let all = vec![me, p(i32::MAX, i32::MAX, i32::MAX)];
    // The weight of a neighbour this far away rounds down to nothing.
    assert_eq!(score(me, p(i32::MAX, 0, 0), &all), 0);
    assert_eq!(decide_angle(me, p(i32::MAX, 0, 0), &all), 0);
}
