use vstd::prelude::*;

verus! {

/// A point or direction in the arena, each coordinate in thousandths of a
/// world unit.
#[derive(Clone, Copy, Debug, PartialEq, Eq, Structural)]
pub struct Point {
    pub x: i32,
    pub y: i32,
    pub z: i32,
}

/// An instantaneous change of velocity, in thousandths of a unit per second.
#[derive(Clone, Copy, Debug, PartialEq, Eq, Structural)]
pub struct Impulse {
    pub x: i64,
    pub y: i64,
    pub z: i64,
}

/// A velocity, in thousandths of a unit per second.
#[derive(Clone, Copy, Debug, PartialEq, Eq, Structural)]
pub struct Velocity {
    pub x: i64,
    pub y: i64,
    pub z: i64,
}

/// Squared distance between two points.
pub open spec fn dist2(a: Point, b: Point) -> int {
    (b.x - a.x) * (b.x - a.x) + (b.y - a.y) * (b.y - a.y) + (b.z - a.z) * (b.z - a.z)
}

/// Dot product of the offset `to - from` with `dir`.
pub open spec fn offset_dot(from: Point, to: Point, dir: Point) -> int {
    (to.x - from.x) * dir.x + (to.y - from.y) * dir.y + (to.z - from.z) * dir.z
}

proof fn lemma_square_bound(d: int)
    requires
        -0x1_0000_0000 <= d <= 0x1_0000_0000,
    ensures
        0 <= d * d <= 0x1_0000_0000_0000_0000,
{
    assert(0 <= d * d <= 0x1_0000_0000_0000_0000) by (nonlinear_arith)
        requires
            -0x1_0000_0000 <= d <= 0x1_0000_0000,
    ;
}

proof fn lemma_product_bound(d: int, r: int)
    requires
        -0x1_0000_0000 <= d <= 0x1_0000_0000,
        -0x8000_0000 <= r <= 0x8000_0000,
    ensures
        -0x80_0000_0000_0000_0000 <= d * r <= 0x80_0000_0000_0000_0000,
{
    assert(-0x80_0000_0000_0000_0000 <= d * r <= 0x80_0000_0000_0000_0000) by (nonlinear_arith)
        requires
            -0x1_0000_0000 <= d <= 0x1_0000_0000,
            -0x8000_0000 <= r <= 0x8000_0000,
    ;
}

/// Squared distance between `a` and `b`.
pub fn distance_squared(a: Point, b: Point) -> (r: i128)
    ensures
        r == dist2(a, b),
        0 <= r <= 3 * 0x1_0000_0000_0000_0000,
{
    let dx: i64 = b.x as i64 - a.x as i64;
    let dy: i64 = b.y as i64 - a.y as i64;
    let dz: i64 = b.z as i64 - a.z as i64;
    proof {
        lemma_square_bound(dx as int);
        lemma_square_bound(dy as int);
        lemma_square_bound(dz as int);
    }
    (dx as i128) * (dx as i128) + (dy as i128) * (dy as i128) + (dz as i128) * (dz as i128)
}

/// Dot product of the offset from `from` to `to` with the direction `dir`.
pub fn dot_offset(from: Point, to: Point, dir: Point) -> (r: i128)
    ensures
        r == offset_dot(from, to, dir),
{
    let dx: i64 = to.x as i64 - from.x as i64;
    let dy: i64 = to.y as i64 - from.y as i64;
    let dz: i64 = to.z as i64 - from.z as i64;
    proof {
        lemma_product_bound(dx as int, dir.x as int);
        lemma_product_bound(dy as int, dir.y as int);
        lemma_product_bound(dz as int, dir.z as int);
    }
    (dx as i128) * (dir.x as i128) + (dy as i128) * (dir.y as i128) + (dz as i128) * (dir.z as i128)
}

} // verus!
