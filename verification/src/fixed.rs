//! Fixed-point scalars and vectors.
//!
//! Spatial quantities (positions, offsets, speeds) are carried as signed
//! integers counting thousandths of a world unit, so that the tweening
//! arithmetic is exact and free of rounding surprises. One whole unit is
//! [`MILLI`] thousandths; coordinates are bounded by [`COORD_LIMIT`] so
//! that interpolation products stay well inside `i64`.

use vstd::prelude::*;

verus! {

/// Thousandths in one whole unit.
pub const MILLI: i64 = 1000;

/// Largest coordinate magnitude, in thousandths, that the core accepts.
pub const COORD_LIMIT: i64 = 1_000_000_000_000;

/// Largest magnitude, in thousandths, for an entity position or an
/// authored travel offset: half of [`COORD_LIMIT`], so that their sum
/// is always a coordinate in bounds.
pub const OFFSET_LIMIT: i64 = 500_000_000_000;

/// A position or offset in fixed-point thousandths.
#[derive(Clone, Copy, Debug, PartialEq, Eq, Structural)]
pub struct Vec3Milli {
    pub x: i64,
    pub y: i64,
    pub z: i64,
}

impl Vec3Milli {
    /// All coordinates within [`COORD_LIMIT`].
    pub open spec fn wf(self) -> bool {
        &&& -COORD_LIMIT <= self.x <= COORD_LIMIT
        &&& -COORD_LIMIT <= self.y <= COORD_LIMIT
        &&& -COORD_LIMIT <= self.z <= COORD_LIMIT
    }

    /// The origin.
    pub fn zero() -> (r: Vec3Milli)
        ensures
            r == (Vec3Milli { x: 0, y: 0, z: 0 }),
            r.wf(),
    {
        Vec3Milli { x: 0, y: 0, z: 0 }
    }

    /// Component-wise sum, clamped nowhere: the caller keeps both inputs
    /// within half of [`COORD_LIMIT`] or accepts the widened bound.
    pub fn add(self, other: Vec3Milli) -> (r: Vec3Milli)
        requires
            self.wf(),
            other.wf(),
        ensures
            r.x == self.x + other.x,
            r.y == self.y + other.y,
            r.z == self.z + other.z,
    {
        Vec3Milli { x: self.x + other.x, y: self.y + other.y, z: self.z + other.z }
    }
}

/// Linear interpolation of one coordinate: the point `t` thousandths of
/// the way from `a` to `b`, rounded toward `a`.
pub open spec fn lerp1_spec(a: int, b: int, t: int) -> int {
    if b >= a {
        a + (b - a) * t / 1000
    } else {
        a - (a - b) * t / 1000
    }
}

/// `lerp1_spec` stays between its endpoints for `t` in `[0, 1000]`.
pub proof fn lemma_lerp1_bounds(a: int, b: int, t: int)
    requires
        0 <= t <= 1000,
    ensures
        a <= b ==> a <= lerp1_spec(a, b, t) <= b,
        b <= a ==> b <= lerp1_spec(a, b, t) <= a,
{
    if b >= a {
        let d = b - a;
        assert(0 <= d * t) by (nonlinear_arith)
            requires 0 <= d && 0 <= t;
        assert(d * t <= d * 1000) by (nonlinear_arith)
            requires 0 <= d && 0 <= t <= 1000;
        assert(0 <= d * t / 1000);
        assert(d * t / 1000 <= d * 1000 / 1000);
        assert(d * 1000 / 1000 == d);
    } else {
        let d = a - b;
        assert(0 <= d * t) by (nonlinear_arith)
            requires 0 <= d && 0 <= t;
        assert(d * t <= d * 1000) by (nonlinear_arith)
            requires 0 <= d && 0 <= t <= 1000;
        assert(0 <= d * t / 1000);
        assert(d * t / 1000 <= d * 1000 / 1000);
        assert(d * 1000 / 1000 == d);
    }
}

/// One coordinate of the tween position.
pub fn lerp1(a: i64, b: i64, t: i64) -> (r: i64)
    requires
        -COORD_LIMIT <= a <= COORD_LIMIT,
        -COORD_LIMIT <= b <= COORD_LIMIT,
        0 <= t <= 1000,
    ensures
        r == lerp1_spec(a as int, b as int, t as int),
        -COORD_LIMIT <= r <= COORD_LIMIT,
{
    proof {
        lemma_lerp1_bounds(a as int, b as int, t as int);
    }
    if b >= a {
        let d = b - a;
        assert(d * t <= d * 1000) by (nonlinear_arith)
            requires 0 <= d && 0 <= t <= 1000;
        assert(0 <= d * t) by (nonlinear_arith)
            requires 0 <= d && 0 <= t;
        a + d * t / 1000
    } else {
        let d = a - b;
        assert(d * t <= d * 1000) by (nonlinear_arith)
            requires 0 <= d && 0 <= t <= 1000;
        assert(0 <= d * t) by (nonlinear_arith)
            requires 0 <= d && 0 <= t;
        a - d * t / 1000
    }
}

/// The point `t` thousandths of the way from `a` to `b`.
pub open spec fn lerp3_spec(a: Vec3Milli, b: Vec3Milli, t: int) -> Vec3Milli {
    Vec3Milli {
        x: lerp1_spec(a.x as int, b.x as int, t) as i64,
        y: lerp1_spec(a.y as int, b.y as int, t) as i64,
        z: lerp1_spec(a.z as int, b.z as int, t) as i64,
    }
}

/// Component-wise linear interpolation between two positions.
pub fn lerp3(a: Vec3Milli, b: Vec3Milli, t: i64) -> (r: Vec3Milli)
    requires
        a.wf(),
        b.wf(),
        0 <= t <= 1000,
    ensures
        r == lerp3_spec(a, b, t as int),
        r.wf(),
{
    proof {
        lemma_lerp1_bounds(a.x as int, b.x as int, t as int);
        lemma_lerp1_bounds(a.y as int, b.y as int, t as int);
        lemma_lerp1_bounds(a.z as int, b.z as int, t as int);
    }
    Vec3Milli { x: lerp1(a.x, b.x, t), y: lerp1(a.y, b.y, t), z: lerp1(a.z, b.z, t) }
}

} // verus!
