//! Plane geometry on playfield points.
use vstd::prelude::*;
use crate::beatmap::Point;

verus! {

/// Calculations on playfield points.
pub struct Math;

/// Twice the signed area of the triangle `a`, `b`, `c`.
pub open spec fn cross(a: Point, b: Point, c: Point) -> int {
    (b.x - a.x) * (c.y - a.y) - (b.y - a.y) * (c.x - a.x)
}

impl Math {
    /// Checks if `a`, `b` and `c` are all on the same line.
    pub fn is_line(a: Point, b: Point, c: Point) -> (r: bool)
        ensures
            r == (cross(a, b, c) == 0),
    {
        let bx = b.x as i64 - a.x as i64;
        let by = b.y as i64 - a.y as i64;
        let cx = c.x as i64 - a.x as i64;
        let cy = c.y as i64 - a.y as i64;
        proof {
            assert(-0x1_0000_0000 * 0x1_0000_0000 <= bx * cy <= 0x1_0000_0000 * 0x1_0000_0000) by (nonlinear_arith)
                requires
                    -0x1_0000_0000 <= bx <= 0x1_0000_0000,
                    -0x1_0000_0000 <= cy <= 0x1_0000_0000,
            ;
            assert(-0x1_0000_0000 * 0x1_0000_0000 <= by * cx <= 0x1_0000_0000 * 0x1_0000_0000) by (nonlinear_arith)
                requires
                    -0x1_0000_0000 <= by <= 0x1_0000_0000,
                    -0x1_0000_0000 <= cx <= 0x1_0000_0000,
            ;
        }
        (bx as i128) * (cy as i128) - (by as i128) * (cx as i128) == 0
    }
}

} // verus!
