//! Fixed-point scalars and 2D vectors.
//!
//! A world length of one unit is stored as `MILLI` (1000) fixed-point steps.
//! Positions that take part in collision tests are clamped to
//! `[-MAX_COORD, MAX_COORD]` on each axis, which keeps every squared
//! distance within `i64` range.

use vstd::prelude::*;

verus! {

/// Fixed-point steps per world unit.
pub const MILLI: i64 = 1000;

/// Bound on the magnitude of a position coordinate, in milli-units.
pub const MAX_COORD: i64 = 1_000_000_000;

/// The value `v` forced into `[lo, hi]`.
pub open spec fn clamped(v: int, lo: int, hi: int) -> int {
    if v < lo {
        lo
    } else if v > hi {
        hi
    } else {
        v
    }
}

/// Clamp a scalar into `[lo, hi]`.
pub fn clamp_i64(v: i64, lo: i64, hi: i64) -> (r: i64)
    requires
        lo <= hi,
    ensures
        r == clamped(v as int, lo as int, hi as int),
{
    if v < lo {
        lo
    } else if v > hi {
        hi
    } else {
        v
    }
}

/// A 2D vector in fixed-point milli-units.
#[derive(Clone, Copy, PartialEq, Eq, Structural, Debug)]
pub struct Vec2 {
    pub x: i64,
    pub y: i64,
}

impl Vec2 {
    /// The origin.
    pub fn zero() -> (r: Vec2)
        ensures
            r.x == 0 && r.y == 0,
    {
        Vec2 { x: 0, y: 0 }
    }

    /// Both coordinates lie within `[-MAX_COORD, MAX_COORD]`.
    pub open spec fn in_world(self) -> bool {
        -MAX_COORD <= self.x <= MAX_COORD && -MAX_COORD <= self.y <= MAX_COORD
    }
}

/// Squared Euclidean distance between two points, as a mathematical integer.
pub open spec fn dist_sq(a: Vec2, b: Vec2) -> int {
    (a.x - b.x) * (a.x - b.x) + (a.y - b.y) * (a.y - b.y)
}

/// Squared distance of two in-world points; exact, no overflow.
pub fn dist_sq_i64(a: Vec2, b: Vec2) -> (r: i64)
    requires
        a.in_world(),
        b.in_world(),
    ensures
        r == dist_sq(a, b),
{
    let dx: i64 = a.x - b.x;
    let dy: i64 = a.y - b.y;
    proof {
        assert(dx * dx <= 4_000_000_000_000_000_000 && dx * dx >= 0) by (nonlinear_arith)
            requires
                -2_000_000_000 <= dx <= 2_000_000_000,
        ;
        assert(dy * dy <= 4_000_000_000_000_000_000 && dy * dy >= 0) by (nonlinear_arith)
            requires
                -2_000_000_000 <= dy <= 2_000_000_000,
        ;
    }
    dx * dx + dy * dy
}

} // verus!
