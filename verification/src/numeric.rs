//! Integer helpers with the exact semantics of Rust's signed `/`, `%`, arithmetic shifts and of
//! rounding a quotient the way `(a as f64 / b as f64).round() as i32` does for `i32` operands
//! (half away from zero, saturating at the `i32` bounds).
use vstd::prelude::*;

verus! {

pub open spec fn abs(a: int) -> int {
    if a < 0 { -a } else { a }
}

/// Rust's `/` on signed integers: truncation toward zero.
pub open spec fn trunc_div(a: int, b: int) -> int {
    if (a >= 0) == (b > 0) || a == 0 {
        abs(a) / abs(b)
    } else {
        -(abs(a) / abs(b))
    }
}

/// Rust's `%` on signed integers: the remainder takes the sign of the dividend.
pub open spec fn trunc_rem(a: int, b: int) -> int {
    if a >= 0 { abs(a) % abs(b) } else { -(abs(a) % abs(b)) }
}

/// `a / b` rounded to the nearest integer, ties away from zero.
pub open spec fn round_div(a: int, b: int) -> int {
    let m = (2 * abs(a) + abs(b)) / (2 * abs(b));
    if (a >= 0) == (b > 0) || a == 0 { m } else { -m }
}

/// What `as i32` does to an out-of-range value coming from a float: saturation.
pub open spec fn saturate_i32(v: int) -> int {
    if v > i32::MAX { i32::MAX as int } else if v < i32::MIN { i32::MIN as int } else { v }
}

pub open spec fn min(a: int, b: int) -> int {
    if a <= b { a } else { b }
}

pub open spec fn max(a: int, b: int) -> int {
    if a >= b { a } else { b }
}

pub fn trunc_rem_i32(a: i32, b: i32) -> (r: i32)
    requires
        b != 0,
    ensures
        r == trunc_rem(a as int, b as int),
        abs(r as int) < abs(b as int),
{
    let aa: i64 = if a < 0 { -(a as i64) } else { a as i64 };
    let bb: i64 = if b < 0 { -(b as i64) } else { b as i64 };
    let m = aa % bb;
    if a >= 0 { m as i32 } else { (-m) as i32 }
}

pub fn trunc_div_i32(a: i32, b: i32) -> (r: i32)
    requires
        b != 0,
        !(a == i32::MIN && b == -1),
    ensures
        r == trunc_div(a as int, b as int),
{
    let aa: i64 = if a < 0 { -(a as i64) } else { a as i64 };
    let bb: i64 = if b < 0 { -(b as i64) } else { b as i64 };
    let m = aa / bb;
    assert(m <= aa) by (nonlinear_arith) requires m == aa / bb, aa >= 0, bb >= 1;
    if (a >= 0) == (b > 0) || a == 0 {
        assert(m <= 0x7FFF_FFFF) by {
            if aa == 0x8000_0000 {
                assert(bb >= 2);
                assert(m <= aa / 2) by (nonlinear_arith) requires m == aa / bb, aa >= 0, bb >= 2;
            }
        }
        m as i32
    } else {
        (-m) as i32
    }
}

/// `(a as f64 / b as f64).round() as i32` for operands whose quotient is exactly rounded in
/// `f64` (every `i32` pair qualifies).
pub fn round_div_sat(a: i64, b: i64) -> (r: i32)
    requires
        b != 0,
        -0x1_0000_0000_0000 <= a <= 0x1_0000_0000_0000,
        -0x1_0000_0000_0000 <= b <= 0x1_0000_0000_0000,
    ensures
        r == saturate_i32(round_div(a as int, b as int)),
{
    let aa: i64 = if a < 0 { -a } else { a };
    let bb: i64 = if b < 0 { -b } else { b };
    let m = (2 * aa + bb) / (2 * bb);
    let v: i64 = if (a >= 0) == (b > 0) || a == 0 { m } else { -m };
    assert(m <= 2 * aa + bb) by (nonlinear_arith)
        requires m == (2 * aa + bb) / (2 * bb), aa >= 0, bb >= 1;
    if v > 0x7FFF_FFFF {
        0x7FFF_FFFF
    } else if v < -0x8000_0000 {
        -0x8000_0000
    } else {
        v as i32
    }
}

} // verus!
