//! Angles in fixed-point radians and a rational approximation of sine and
//! cosine on them.
use vstd::prelude::*;
use vstd::arithmetic::div_mod::lemma_mod_multiples_vanish;
use crate::fixed::ONE;

verus! {

/// Pi in units of `1 / ONE` radians.
pub const PI: u64 = 31416;

pub const HALF_PI: u64 = 15708;

pub const QUARTER_PI: u64 = 7854;

pub const TWO_PI: u64 = 62832;

/// Largest angle magnitude that `wrap_angle` takes.
pub const ANGLE_LIMIT: i64 = 0x200_0000_0000;

/// A multiple of `TWO_PI` larger than `ANGLE_LIMIT`.
const WRAP_OFFSET: u64 = 62832 * 0x2000_0000;

/// The angle reduced to `[0, 2 pi)`.
pub open spec fn wrap(a: int) -> int {
    a % (TWO_PI as int)
}

/// Bhaskara's approximation of `sin x` for `0 <= x <= pi`:
/// `16 x (pi - x) / (5 pi^2 - 4 x (pi - x))`, scaled by `ONE`.
pub open spec fn half_sine(x: int) -> int {
    16 * (x * (PI - x)) * ONE / (5 * PI * PI - 4 * (x * (PI - x)))
}

/// Approximate sine of a wrapped angle.
pub open spec fn sine_of(a: int) -> int {
    if a < PI { half_sine(a) } else { -half_sine(a - PI) }
}

pub open spec fn spec_sin(a: int) -> int {
    sine_of(wrap(a))
}

pub open spec fn spec_cos(a: int) -> int {
    sine_of(wrap(a + HALF_PI))
}

pub fn wrap_angle(a: i64) -> (r: u64)
    requires
        -ANGLE_LIMIT <= a <= ANGLE_LIMIT,
    ensures
        r == wrap(a as int),
        r < TWO_PI,
{
    let shifted = (a + WRAP_OFFSET as i64) as u64;
    proof {
        lemma_mod_multiples_vanish(0x2000_0000, a as int, TWO_PI as int);
    }
    shifted % TWO_PI
}

fn half_sine_exec(x: u64) -> (r: i64)
    requires
        x <= PI,
    ensures
        r == half_sine(x as int),
        0 <= r <= ONE,
{
    assert(x * (PI - x) <= PI * PI) by (nonlinear_arith)
        requires x <= PI;
    let p = x * (PI - x);
    assert(4 * p <= PI * PI) by (nonlinear_arith)
        requires p == x * (PI - x), x <= PI;
    let num = 16 * p * ONE;
    let den = 5 * PI * PI - 4 * p;
    assert(num / den <= ONE) by (nonlinear_arith)
        requires num == 16 * p * ONE, den == 5 * PI * PI - 4 * p, 4 * p <= PI * PI, p >= 0;
    (num / den) as i64
}

fn sine_of_exec(a: u64) -> (r: i64)
    requires
        a < TWO_PI,
    ensures
        r == sine_of(a as int),
        -(ONE as int) <= r <= ONE,
{
    if a < PI {
        half_sine_exec(a)
    } else {
        -half_sine_exec(a - PI)
    }
}

/// Approximate sine, in units of `1 / ONE`.
pub fn sin_approx(a: i64) -> (r: i64)
    requires
        -ANGLE_LIMIT <= a <= ANGLE_LIMIT,
    ensures
        r == spec_sin(a as int),
        -(ONE as int) <= r <= ONE,
{
    sine_of_exec(wrap_angle(a))
}

/// Approximate cosine, in units of `1 / ONE`.
pub fn cos_approx(a: i64) -> (r: i64)
    requires
        -ANGLE_LIMIT <= a <= ANGLE_LIMIT - HALF_PI,
    ensures
        r == spec_cos(a as int),
        -(ONE as int) <= r <= ONE,
{
    sine_of_exec(wrap_angle(a + HALF_PI as i64))
}

} // verus!
