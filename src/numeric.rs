//! Integer rounding and clamping shared by the rate computations.
use vstd::prelude::*;

verus! {

/// `n / d` rounded to the nearest integer, halves away from zero.
pub open spec fn round_div(n: int, d: int) -> int
    recommends
        d > 0,
{
    if n >= 0 {
        (2 * n + d) / (2 * d)
    } else {
        -((-2 * n + d) / (2 * d))
    }
}

/// `x` held to the closed range `[lo, hi]`.
pub open spec fn clamp(x: int, lo: int, hi: int) -> int {
    if x < lo {
        lo
    } else if x > hi {
        hi
    } else {
        x
    }
}

/// Bound on the operands of [`rounded_div`], far above what the callers need.
pub const OPERAND_LIMIT: i128 = 0x1000_0000_0000_0000_0000_0000_0000_0000;

/// Divides `n` by `d`, rounding to the nearest integer with halves away from zero.
pub fn rounded_div(n: i128, d: i128) -> (r: i128)
    requires
        d > 0,
        d < OPERAND_LIMIT,
        -OPERAND_LIMIT < n < OPERAND_LIMIT,
    ensures
        r == round_div(n as int, d as int),
{
    if n >= 0 {
        (2 * n + d) / (2 * d)
    } else {
        let m = 0 - n;
        0 - (2 * m + d) / (2 * d)
    }
}

/// Holds `x` to `[lo, hi]`.
pub fn clamp_i128(x: i128, lo: i128, hi: i128) -> (r: i128)
    requires
        lo <= hi,
    ensures
        r == clamp(x as int, lo as int, hi as int),
        lo <= r <= hi,
{
    if x < lo {
        lo
    } else if x > hi {
        hi
    } else {
        x
    }
}

} // verus!
