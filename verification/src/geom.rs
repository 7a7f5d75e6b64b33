//! Plane geometry for the world: points in the unit square, food items,
//! and exact integer distances.

use vstd::prelude::*;

use crate::fixed;
use crate::fixed::FP_ONE;

verus! {

/// A point of the world, in fixed-point coordinates.
#[derive(Clone, Copy, Debug, PartialEq, Eq, Structural)]
pub struct Point {
    pub x: i64,
    pub y: i64,
}

/// A food item: a position only. Consumption relocates it; it is never
/// destroyed.
#[derive(Clone, Copy, Debug, PartialEq, Eq, Structural)]
pub struct Food {
    pub position: Point,
}

/// The point lies inside the world, the half-open unit square.
pub open spec fn in_world(p: Point) -> bool {
    &&& 0 <= p.x < FP_ONE
    &&& 0 <= p.y < FP_ONE
}

/// The squared distance between two points.
pub open spec fn dist_sq_spec(a: Point, b: Point) -> int {
    (a.x - b.x) * (a.x - b.x) + (a.y - b.y) * (a.y - b.y)
}

/// The integer square root, as a specification value.
pub open spec fn sqrt_floor(n: int) -> int {
    choose|r: int| 0 <= r && #[trigger] (r * r) <= n && n < (r + 1) * (r + 1)
}

/// A witness pins `sqrt_floor` down: any `r` with `r^2 <= n < (r+1)^2` is
/// the integer square root.
pub proof fn lemma_sqrt_floor_is(n: int, r: int)
    requires
        0 <= r,
        r * r <= n,
        n < (r + 1) * (r + 1),
    ensures
        sqrt_floor(n) == r,
{
    assert(0 <= r && r * r <= n && n < (r + 1) * (r + 1));
    let s = sqrt_floor(n);
    assert(0 <= s && s * s <= n && n < (s + 1) * (s + 1));
    if s < r {
        assert((s + 1) * (s + 1) <= r * r) by (nonlinear_arith)
            requires
                0 <= s,
                s + 1 <= r,
        ;
    } else if r < s {
        assert((r + 1) * (r + 1) <= s * s) by (nonlinear_arith)
            requires
                0 <= r,
                r + 1 <= s,
        ;
    }
}

/// The distance between two points of the world, rounded down; it is less
/// than `2 * FP_ONE`.
pub fn dist_fx(a: Point, b: Point) -> (r: i64)
    requires
        in_world(a),
        in_world(b),
    ensures
        r as int == sqrt_floor(dist_sq_spec(a, b)),
        0 <= r < 2 * FP_ONE,
{
    let dx: i64 = a.x - b.x;
    let dy: i64 = a.y - b.y;
    assert(0 <= dx * dx < (FP_ONE as int) * (FP_ONE as int)) by (nonlinear_arith)
        requires
            -(FP_ONE as int) < dx < (FP_ONE as int),
    ;
    assert(0 <= dy * dy < (FP_ONE as int) * (FP_ONE as int)) by (nonlinear_arith)
        requires
            -(FP_ONE as int) < dy < (FP_ONE as int),
    ;
    let dd: u64 = (dx * dx + dy * dy) as u64;
    let r = fixed::isqrt(dd);
    proof {
        lemma_sqrt_floor_is(dd as int, r as int);
        if r >= 2 * FP_ONE {
            assert((r as int) * (r as int) >= (2 * FP_ONE as int) * (2 * FP_ONE as int))
                by (nonlinear_arith)
                requires
                    r as int >= 2 * (FP_ONE as int),
            ;
        }
    }
    r as i64
}

} // verus!
