use insane_livestock::weapon::{blast_impulse, detonations, explode, fire, isqrt, Projectile};
use insane_livestock::{Impulse, Point, Velocity};

fn p(x: i32, y: i32, z: i32) -> Point {
    Point { x, y, z }
}

#[test]
fn integer_square_roots() {
    assert_eq!(isqrt(0), 0);
    assert_eq!(isqrt(1), 1);
    assert_eq!(isqrt(15), 3);
    assert_eq!(isqrt(16), 4);
    assert_eq!(isqrt(100_000_000), 10_000);
    assert_eq!(isqrt(0x3_0000_0000_0000_0000), 7_439_101_573);
}

#[test]
fn blast_pushes_away_with_inverse_square_strength() {
    // Ten units away: 10^5 / 10^2 = 1000 units per second.
    let r = blast_impulse(p(10000, 0, 0), p(0, 0, 0));
    assert_eq!(r, Impulse { x: 1_000_000, y: 0, z: 0 });
    let r = blast_impulse(p(0, -10000, 0), p(0, 0, 0));
    assert_eq!(r, Impulse { x: 0, y: -1_000_000, z: 0 });
}

#[test]
fn doubling_distance_quarters_the_impulse() {
    let near = blast_impulse(p(10000, 0, 0), p(0, 0, 0));
    let far = blast_impulse(p(20000, 0, 0), p(0, 0, 0));
    assert_eq!(far.x * 4, near.x);
    assert_eq!(far, Impulse { x: 250_000, y: 0, z: 0 });
}

#[test]
fn blast_direction_is_normalised() {
    // Offset (3, 4, 0) units from the blast: distance 5, strength 4000.
    let r = blast_impulse(p(3000, 4000, 0), p(0, 0, 0));
    assert_eq!(r, Impulse { x: 2_400_000, y: 3_200_000, z: 0 });
    let r = blast_impulse(p(1000, 2000, 3000), p(4000, 6000, 3000));
    assert_eq!(r, Impulse { x: -2_400_000, y: -3_200_000, z: 0 });
}

#[test]
fn agent_at_the_blast_point_is_not_pushed() {
    assert_eq!(blast_impulse(p(7, 8, 9), p(7, 8, 9)), Impulse { x: 0, y: 0, z: 0 });
}

#[test]
fn explode_reaches_every_agent() {
    let r = explode(p(0, 0, 0), &vec![p(10000, 0, 0), p(0, 0, 20000), p(0, 0, 0)]);
    assert_eq!(
        r,
        vec![
            Impulse { x: 1_000_000, y: 0, z: 0 },
            Impulse { x: 0, y: 0, z: 250_000 },
            Impulse { x: 0, y: 0, z: 0 },
        ]
    );
}

#[test]
fn projectile_detonates_whichever_side_of_the_pair() {
    let bullets = vec![7, 9];
    assert_eq!(detonations(&bullets, &vec![(1, 7)]), vec![7]);
    assert_eq!(detonations(&bullets, &vec![(9, 1)]), vec![9]);
}

#[test]
fn projectile_detonates_once() {
    let bullets = vec![7, 9];
    let r = detonations(&bullets, &vec![(9, 1), (3, 7), (9, 2), (7, 4)]);
    assert_eq!(r, vec![9, 7]);
}

#[test]
fn collisions_without_projectile_are_ignored() {
    assert_eq!(detonations(&vec![7], &vec![(1, 2), (3, 4)]), Vec::<u64>::new());
    assert_eq!(detonations(&vec![], &vec![(1, 2)]), Vec::<u64>::new());
}

#[test]
fn fired_projectile_leaves_half_a_unit_ahead() {
    let r = fire(p(0, 10000, -300000), p(0, 0, 1000));
    assert_eq!(
        r,
        Projectile {
            position: p(0, 10000, -299500),
            velocity: Velocity { x: 0, y: 0, z: 1_000_000 },
        }
    );
    // Negative components round toward zero: -0.601 units ahead is -301.
    let r = fire(p(0, 0, 0), p(-601, 0, -799));
    assert_eq!(r.position, p(-300, 0, -399));
    assert_eq!(r.velocity, Velocity { x: -601_000, y: 0, z: -799_000 });
}
