use vstd::prelude::*;
use crate::geometry::{Point, dist2, offset_dot, distance_squared, dot_offset};

verus! {

/// Neighbours closer than this squared distance (0.01 square units) are the
/// agent itself or sit on top of it, and are ignored.
pub const MIN_NEIGHBOUR_DIST2: i128 = 10000;

/// Numerator of a neighbour's inverse-square weight. Over squared distances
/// in thousandths it makes a weight 10^12 times the inverse square distance in
/// world units.
pub const STEER_SCALE: i128 = 1_000_000_000_000_000_000;

/// A right-bias score whose magnitude is below this (10^-6 per square world
/// unit) counts as balanced.
pub const TURN_THRESHOLD: i128 = 1_000_000;

/// Yaw applied in one tick when the agent turns, in thousandths of a radian.
/// Yaw is measured about the world's up axis, counterclockwise seen from
/// above: a positive yaw turns the agent to its left, a negative one to its
/// right.
pub const TURN_STEP: i32 = 20;

/// Whether `other` lies strictly on the positive side of the agent's right axis.
pub open spec fn right_of(pos: Point, right: Point, other: Point) -> bool {
    offset_dot(pos, other, right) > 0
}

/// Signed inverse-square weight of one neighbour: positive on the right,
/// negative elsewhere, zero for a neighbour that is too close to count.
pub open spec fn weight(pos: Point, right: Point, other: Point) -> int {
    if dist2(pos, other) < MIN_NEIGHBOUR_DIST2 {
        0
    } else if right_of(pos, right, other) {
        STEER_SCALE as int / dist2(pos, other)
    } else {
        -(STEER_SCALE as int / dist2(pos, other))
    }
}

/// Sum of the weights of all neighbours.
pub open spec fn right_score(pos: Point, right: Point, others: Seq<Point>) -> int
    decreases others.len(),
{
    if others.len() == 0 {
        0
    } else {
        right_score(pos, right, others.drop_last()) + weight(pos, right, others.last())
    }
}

/// The yaw, in thousandths of a radian, that a score calls for: away from the
/// heavier side (to the left, positive, when the right side is heavier), none
/// when balanced.
pub open spec fn turn_for(score: int) -> int {
    if -TURN_THRESHOLD < score < TURN_THRESHOLD {
        0
    } else if score > 0 {
        TURN_STEP as int
    } else {
        -TURN_STEP
    }
}

proof fn lemma_weight_bound(pos: Point, right: Point, other: Point)
    ensures
        -100_000_000_000_000 <= weight(pos, right, other) <= 100_000_000_000_000,
{
    let d = dist2(pos, other);
    if d >= MIN_NEIGHBOUR_DIST2 {
        vstd::arithmetic::div_mod::lemma_div_is_ordered_by_denominator(
            STEER_SCALE as int,
            MIN_NEIGHBOUR_DIST2 as int,
            d,
        );
        assert(STEER_SCALE as int / MIN_NEIGHBOUR_DIST2 as int == 100_000_000_000_000);
        assert(STEER_SCALE as int / d >= 0) by (nonlinear_arith)
            requires
                d > 0,
        ;
    }
}

/// Whether `other` lies on the positive side of the right axis of an agent
/// at `pos` whose right direction is `right`.
pub fn is_to_the_right(pos: Point, right: Point, other: Point) -> (r: bool)
    ensures
        r == right_of(pos, right, other),
{
    dot_offset(pos, other, right) > 0
}

/// The right-bias score of an agent at `pos` facing so that `right` points to
/// its right, among the agents at `all_pos` (which may include itself).
pub fn score(pos: Point, right: Point, all_pos: &Vec<Point>) -> (r: i128)
    ensures
        r == right_score(pos, right, all_pos@),
{
    let mut total: i128 = 0;
    let mut i: usize = 0;
    while i < all_pos.len()
        invariant
            i <= all_pos.len(),
            total == right_score(pos, right, all_pos@.subrange(0, i as int)),
            -100_000_000_000_000 * i <= total <= 100_000_000_000_000 * i,
        decreases all_pos.len() - i,
    {
        let other = all_pos[i];
        proof {
            let next = all_pos@.subrange(0, i + 1);
            assert(next.drop_last() == all_pos@.subrange(0, i as int));
            assert(next.last() == other);
            lemma_weight_bound(pos, right, other);
        }
        let d = distance_squared(pos, other);
        if d >= MIN_NEIGHBOUR_DIST2 {
            let strength = STEER_SCALE / d;
            if is_to_the_right(pos, right, other) {
                total = total + strength;
            } else {
                total = total - strength;
            }
        }
        i = i + 1;
    }
    assert(all_pos@.subrange(0, i as int) == all_pos@);
    total
}

/// The yaw correction for one tick, in thousandths of a radian and positive
/// to the left (see `TURN_STEP`): a small turn away from the side where the
/// inverse-square weight of the other agents is larger, or none when both
/// sides balance.
pub fn decide_angle(pos: Point, right: Point, all_pos: &Vec<Point>) -> (r: i32)
    ensures
        r == turn_for(right_score(pos, right, all_pos@)),
{
    let s = score(pos, right, all_pos);
    if -TURN_THRESHOLD < s && s < TURN_THRESHOLD {
        0
    } else if s > 0 {
        TURN_STEP
    } else {
        -TURN_STEP
    }
}

/// Two agents at the same distance on opposite sides of an agent cancel out:
/// its score (the agent itself among the positions) is zero and it does not
/// turn.
pub proof fn lemma_steering_symmetry(pos: Point, right: Point, a: Point, b: Point)
    requires
        dist2(pos, a) == dist2(pos, b),
        offset_dot(pos, a, right) > 0,
        offset_dot(pos, b, right) < 0,
    ensures
        right_score(pos, right, seq![pos, a, b]) == 0,
        turn_for(right_score(pos, right, seq![pos, a, b])) == 0,
{
    let s = seq![pos, a, b];
    assert(s.drop_last() == seq![pos, a]);
    assert(seq![pos, a].drop_last() == seq![pos]);
    assert(seq![pos].drop_last() == Seq::<Point>::empty());
    assert(dist2(pos, pos) == 0);
    assert(right_score(pos, right, Seq::<Point>::empty()) == 0);
    assert(right_score(pos, right, seq![pos]) == 0);
    assert(right_score(pos, right, seq![pos, a]) == weight(pos, right, a));
    assert(right_score(pos, right, s) == weight(pos, right, a) + weight(pos, right, b));
}

} // verus!
