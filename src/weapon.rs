use vstd::prelude::*;
use crate::geometry::{Point, Impulse, Velocity, dist2, distance_squared};

verus! {

/// Blast constant: the speed change, in thousandths of a unit per second, at a
/// squared distance of one (thousandth-unit) squared.
pub const BLAST_K: i128 = 100_000_000_000_000;

/// Largest squared distance between two points.
pub const MAX_DIST2: u128 = 0x3_0000_0000_0000_0000;

/// Speed of a projectile as it leaves the viewpoint, in units per second.
pub const BULLET_SPEED: i64 = 1000;

/// A projectile as it is fired.
#[derive(Clone, Copy, Debug, PartialEq, Eq, Structural)]
pub struct Projectile {
    pub position: Point,
    pub velocity: Velocity,
}

/// Whether `dir` is a direction given in thousandths of a unit vector.
pub open spec fn unit_direction(dir: Point) -> bool {
    &&& -1000 <= dir.x <= 1000
    &&& -1000 <= dir.y <= 1000
    &&& -1000 <= dir.z <= 1000
}

/// Half of `v`, rounded toward zero.
pub open spec fn half(v: int) -> int {
    if v >= 0 {
        v / 2
    } else {
        -((-v) / 2)
    }
}

/// The projectile fired from a viewpoint at `eye` looking along `forward` (in
/// thousandths of a unit vector): it appears half a unit ahead of the eye and
/// flies along `forward` at `BULLET_SPEED`.
pub open spec fn fired(eye: Point, forward: Point) -> Projectile {
    Projectile {
        position: Point {
            x: (eye.x + half(forward.x as int)) as i32,
            y: (eye.y + half(forward.y as int)) as i32,
            z: (eye.z + half(forward.z as int)) as i32,
        },
        velocity: Velocity {
            x: (forward.x * BULLET_SPEED) as i64,
            y: (forward.y * BULLET_SPEED) as i64,
            z: (forward.z * BULLET_SPEED) as i64,
        },
    }
}

fn half_toward_zero(v: i32) -> (r: i32)
    requires
        -1000 <= v <= 1000,
    ensures
        r == half(v as int),
        -500 <= r <= 500,
{
    if v >= 0 {
        v / 2
    } else {
        -((-v) / 2)
    }
}

/// The projectile fired from `eye` looking along `forward`.
pub fn fire(eye: Point, forward: Point) -> (r: Projectile)
    requires
        unit_direction(forward),
        i32::MIN + 500 <= eye.x <= i32::MAX - 500,
        i32::MIN + 500 <= eye.y <= i32::MAX - 500,
        i32::MIN + 500 <= eye.z <= i32::MAX - 500,
    ensures
        r == fired(eye, forward),
{
    Projectile {
        position: Point {
            x: eye.x + half_toward_zero(forward.x),
            y: eye.y + half_toward_zero(forward.y),
            z: eye.z + half_toward_zero(forward.z),
        },
        velocity: Velocity {
            x: forward.x as i64 * BULLET_SPEED,
            y: forward.y as i64 * BULLET_SPEED,
            z: forward.z as i64 * BULLET_SPEED,
        },
    }
}

/// Integer square root: the largest `r` with `r * r <= n`.
pub open spec fn is_isqrt(n: int, r: int) -> bool {
    0 <= r && r * r <= n < (r + 1) * (r + 1)
}

/// Magnitude of the speed change caused by a blast at squared distance `d2`.
pub open spec fn blast_strength(d2: int) -> int {
    if d2 <= 0 {
        0
    } else {
        BLAST_K as int / d2
    }
}

/// One component of the blast's speed change: the offset's component over the
/// distance `len`, scaled by the strength, rounded toward zero.
pub open spec fn blast_component(offset: int, strength: int, len: int) -> int {
    if len <= 0 {
        0
    } else if offset >= 0 {
        (offset * strength) / len
    } else {
        -((-offset * strength) / len)
    }
}

/// The speed change that a blast at `blast` gives an agent at `agent`: along
/// the direction away from the blast, of magnitude `BLAST_K / d^2`.
pub open spec fn blast_impulse_spec(agent: Point, blast: Point, len: int) -> Impulse {
    let s = blast_strength(dist2(blast, agent));
    Impulse {
        x: blast_component(agent.x - blast.x, s, len) as i64,
        y: blast_component(agent.y - blast.y, s, len) as i64,
        z: blast_component(agent.z - blast.z, s, len) as i64,
    }
}

/// `r` is the speed change that a blast at `blast` gives an agent at `agent`.
pub open spec fn is_blast_impulse(agent: Point, blast: Point, r: Impulse) -> bool {
    exists|len: int| is_isqrt(dist2(blast, agent), len) && r == blast_impulse_spec(agent, blast, len)
}

/// The projectile, if any, among the two bodies of a collision.
pub open spec fn struck(bullets: Seq<u64>, pair: (u64, u64)) -> Option<u64> {
    if bullets.contains(pair.0) {
        Some(pair.0)
    } else if bullets.contains(pair.1) {
        Some(pair.1)
    } else {
        None
    }
}

/// The projectiles that detonate on a sequence of collision starts, each once,
/// in the order of its first collision.
pub open spec fn detonated(bullets: Seq<u64>, events: Seq<(u64, u64)>) -> Seq<u64>
    decreases events.len(),
{
    if events.len() == 0 {
        Seq::empty()
    } else {
        let before = detonated(bullets, events.drop_last());
        match struck(bullets, events.last()) {
            Some(b) => if before.contains(b) {
                before
            } else {
                before.push(b)
            },
            None => before,
        }
    }
}

/// Integer square root of `n`.
pub fn isqrt(n: u128) -> (r: u128)
    requires
        n <= MAX_DIST2,
    ensures
        is_isqrt(n as int, r as int),
{
    let mut lo: u128 = 0;
    let mut hi: u128 = 0x4_0000_0000;
    assert(hi * hi > MAX_DIST2) by (nonlinear_arith)
        requires
            hi == 0x4_0000_0000,
    ;
    while hi - lo > 1
        invariant
            lo < hi <= 0x4_0000_0000,
            lo * lo <= n,
            n < hi * hi,
        decreases hi - lo,
    {
        let mid: u128 = lo + (hi - lo) / 2;
        assert(mid * mid <= 0x10_0000_0000_0000_0000) by (nonlinear_arith)
            requires
                mid <= 0x4_0000_0000,
        ;
        if mid * mid <= n {
            lo = mid;
        } else {
            hi = mid;
        }
    }
    assert(hi == lo + 1);
    lo
}

proof fn lemma_offset_le_len(o: int, d2: int, len: int)
    requires
        o * o <= d2,
        is_isqrt(d2, len),
    ensures
        -len <= o <= len,
{
    if o > len {
        assert(o * o >= (len + 1) * (len + 1)) by (nonlinear_arith)
            requires
                o >= len + 1,
                len >= 0,
        ;
    }
    if o < -len {
        assert(o * o >= (len + 1) * (len + 1)) by (nonlinear_arith)
            requires
                -o >= len + 1,
                len >= 0,
        ;
    }
}

proof fn lemma_component_bound(o: int, s: int, len: int)
    requires
        -len <= o <= len,
        0 <= s,
        0 < len,
    ensures
        -s <= blast_component(o, s, len) <= s,
{
    let a = if o >= 0 { o } else { -o };
    assert(a * s <= len * s) by (nonlinear_arith)
        requires
            0 <= a <= len,
            0 <= s,
    ;
    vstd::arithmetic::div_mod::lemma_div_is_ordered(a * s, len * s, len);
    vstd::arithmetic::div_mod::lemma_div_multiples_vanish(s, len);
    assert(len * s == s * len) by (nonlinear_arith);
    assert(a * s >= 0) by (nonlinear_arith)
        requires
            a >= 0,
            s >= 0,
    ;
    assert((a * s) / len >= 0) by (nonlinear_arith)
        requires
            a * s >= 0,
            len > 0,
    ;
}

fn component(offset: i64, strength: u128, len: u128) -> (r: i64)
    requires
        -(len as int) <= offset <= len,
        strength <= BLAST_K,
        0 < len <= 0x4_0000_0000,
    ensures
        r == blast_component(offset as int, strength as int, len as int),
{
    proof {
        lemma_component_bound(offset as int, strength as int, len as int);
    }
    if offset >= 0 {
        let a: u128 = offset as u128;
        assert(a * strength <= 0x4_0000_0000 * BLAST_K) by (nonlinear_arith)
            requires
                a <= 0x4_0000_0000,
                strength <= BLAST_K,
        ;
        ((a * strength) / len) as i64
    } else {
        let a: u128 = (-(offset as i128)) as u128;
        assert(a * strength <= 0x4_0000_0000 * BLAST_K) by (nonlinear_arith)
            requires
                a <= 0x4_0000_0000,
                strength <= BLAST_K,
        ;
        -(((a * strength) / len) as i64)
    }
}

/// The speed change that a blast at `blast` gives an agent at `agent`: along
/// the direction from the blast to the agent, with magnitude `BLAST_K / d^2`
/// for a squared distance `d^2` (each component rounded toward zero). An agent
/// exactly at the blast point has no direction to be pushed in and gets none.
pub fn blast_impulse(agent: Point, blast: Point) -> (r: Impulse)
    ensures
        is_blast_impulse(agent, blast, r),
        dist2(blast, agent) == 0 ==> r == (Impulse { x: 0, y: 0, z: 0 }),
{
    let d2 = distance_squared(blast, agent);
    let len = isqrt(d2 as u128);
    if d2 == 0 {
        assert(len == 0) by (nonlinear_arith)
            requires
                len * len <= 0,
        ;
        let r = Impulse { x: 0, y: 0, z: 0 };
        assert(is_isqrt(dist2(blast, agent), len as int) && r == blast_impulse_spec(agent, blast, len as int));
        return r;
    }
    assert(len > 0) by (nonlinear_arith)
        requires
            d2 > 0,
            d2 < (len + 1) * (len + 1),
            len >= 0,
    ;
    assert(len <= 0x4_0000_0000) by (nonlinear_arith)
        requires
            len * len <= MAX_DIST2,
            len >= 0,
    ;
    let strength: u128 = (BLAST_K / d2) as u128;
    assert(strength as int == blast_strength(d2 as int));
    assert(BLAST_K / d2 <= BLAST_K) by (nonlinear_arith)
        requires
            d2 >= 1,
    ;
    let dx: i64 = agent.x as i64 - blast.x as i64;
    let dy: i64 = agent.y as i64 - blast.y as i64;
    let dz: i64 = agent.z as i64 - blast.z as i64;
    proof {
        assert(dx * dx >= 0 && dy * dy >= 0 && dz * dz >= 0) by (nonlinear_arith);
        lemma_offset_le_len(dx as int, d2 as int, len as int);
        lemma_offset_le_len(dy as int, d2 as int, len as int);
        lemma_offset_le_len(dz as int, d2 as int, len as int);
    }
    let r = Impulse {
        x: component(dx, strength, len),
        y: component(dy, strength, len),
        z: component(dz, strength, len),
    };
    assert(is_isqrt(dist2(blast, agent), len as int) && r == blast_impulse_spec(agent, blast, len as int));
    r
}

/// The speed change that one blast at `blast` gives each agent at `positions`,
/// in the same order.
pub fn explode(blast: Point, positions: &Vec<Point>) -> (r: Vec<Impulse>)
    ensures
        r@.len() == positions@.len(),
        forall|i: int| 0 <= i < r@.len() ==> is_blast_impulse(#[trigger] positions@[i], blast, r@[i]),
{
    let mut r: Vec<Impulse> = Vec::new();
    let mut i: usize = 0;
    while i < positions.len()
        invariant
            i <= positions@.len(),
            r@.len() == i,
            forall|k: int| 0 <= k < i ==> is_blast_impulse(#[trigger] positions@[k], blast, r@[k]),
        decreases positions@.len() - i,
    {
        r.push(blast_impulse(positions[i], blast));
        i = i + 1;
    }
    r
}

/// Whether `id` is one of `ids`.
fn holds(ids: &Vec<u64>, id: u64) -> (r: bool)
    ensures
        r == ids@.contains(id),
{
    let mut i: usize = 0;
    while i < ids.len()
        invariant
            i <= ids@.len(),
            forall|k: int| 0 <= k < i ==> ids@[k] != id,
        decreases ids@.len() - i,
    {
        if ids[i] == id {
            return true;
        }
        i = i + 1;
    }
    false
}

/// The projectiles (among `bullets`) that detonate on the collision starts
/// `collisions`: a projectile detonates on its first collision with anything,
/// whichever side of the pair it stands on; pairs without a projectile are
/// ignored, and no projectile detonates twice.
pub fn detonations(bullets: &Vec<u64>, collisions: &Vec<(u64, u64)>) -> (r: Vec<u64>)
    ensures
        r@ == detonated(bullets@, collisions@),
        r@.no_duplicates(),
        forall|k: int| 0 <= k < r@.len() ==> bullets@.contains(#[trigger] r@[k]),
{
    let mut r: Vec<u64> = Vec::new();
    let mut i: usize = 0;
    while i < collisions.len()
        invariant
            i <= collisions@.len(),
            r@ == detonated(bullets@, collisions@.subrange(0, i as int)),
            r@.no_duplicates(),
            forall|k: int| 0 <= k < r@.len() ==> bullets@.contains(#[trigger] r@[k]),
        decreases collisions@.len() - i,
    {
        let pair = collisions[i];
        proof {
            let next = collisions@.subrange(0, i + 1);
            assert(next.drop_last() == collisions@.subrange(0, i as int));
            assert(next.last() == pair);
        }
        let hit: Option<u64> = if holds(bullets, pair.0) {
            Some(pair.0)
        } else if holds(bullets, pair.1) {
            Some(pair.1)
        } else {
            None
        };
        match hit {
            Some(b) => {
                if !holds(&r, b) {
                    r.push(b);
                }
            },
            None => {},
        }
        i = i + 1;
    }
    assert(collisions@.subrange(0, i as int) == collisions@);
    r
}

/// Twice as far from the blast, a quarter of the speed change: an agent whose
/// offset from the blast is twice another's gets a quarter of its strength.
pub proof fn lemma_blast_falloff(blast: Point, near: Point, far: Point)
    requires
        far.x - blast.x == 2 * (near.x - blast.x),
        far.y - blast.y == 2 * (near.y - blast.y),
        far.z - blast.z == 2 * (near.z - blast.z),
        dist2(blast, near) > 0,
    ensures
        dist2(blast, far) == 4 * dist2(blast, near),
        blast_strength(dist2(blast, far)) == blast_strength(dist2(blast, near)) / 4,
{
    let d = dist2(blast, near);
    assert(dist2(blast, far) == 4 * d) by (nonlinear_arith)
        requires
            far.x - blast.x == 2 * (near.x - blast.x),
            far.y - blast.y == 2 * (near.y - blast.y),
            far.z - blast.z == 2 * (near.z - blast.z),
            d == dist2(blast, near),
    ;
    vstd::arithmetic::div_mod::lemma_div_denominator(BLAST_K as int, d, 4);
    assert(d * 4 == 4 * d);
}

} // verus!
