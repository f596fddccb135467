//! Measurements are carried in thousandths (milli-degrees, millimetres per
//! second, thousandths of a UV index step): these functions round them the
//! way the widget shows them.

use vstd::prelude::*;
use crate::doubles::{double_whole, round_thousandths};

verus! {

/// A value given in thousandths, rounded to the nearest whole number, halves
/// away from zero (as `f64::round` does).
pub open spec fn round_milli_spec(v: int) -> int {
    if v >= 0 {
        (v + 500) / 1000
    } else {
        -((-v + 500) / 1000)
    }
}

/// A conversion to `i32` that saturates, as `as i32` does on a float.
pub open spec fn saturate_i32(x: int) -> int {
    if x > i32::MAX {
        i32::MAX as int
    } else if x < i32::MIN {
        i32::MIN as int
    } else {
        x
    }
}

/// The whole number shown for a measurement given in thousandths.
pub open spec fn whole_spec(v: int) -> int {
    saturate_i32(round_milli_spec(v))
}

/// Rounding a measurement moves it by at most half a unit, and a measurement
/// and its negation round to opposite numbers.
pub proof fn law_round_nearest_symmetric(v: int)
    ensures
        -500 <= 1000 * round_milli_spec(v) - v <= 500,
        round_milli_spec(-v) == -round_milli_spec(v),
{
}

/// Rounding never reverses the order of two measurements.
pub proof fn law_round_monotone(v: int, w: int)
    requires
        v <= w,
    ensures
        round_milli_spec(v) <= round_milli_spec(w),
{
    if v >= 0 {
        vstd::arithmetic::div_mod::lemma_div_is_ordered(v + 500, w + 500, 1000);
    } else if w >= 0 {
    } else {
        vstd::arithmetic::div_mod::lemma_div_is_ordered(-w + 500, -v + 500, 1000);
    }
}

/// Rounds a value given in thousandths to a whole number (halves away from
/// zero) and saturates it to `i32`. This is also what `.round() as i32` gives
/// for the double nearest the value: the work is done on that double.
pub fn rounded_whole(v: i64) -> (r: i32)
    ensures
        r as int == whole_spec(v as int),
        r as int == double_whole(v as int),
{
    round_thousandths(v)
}

/// Rounds `n / d` to the nearest natural number, halves to even.
pub open spec fn round_half_even(n: nat, d: nat) -> nat
    recommends
        d > 0,
{
    let q = n / d;
    let r = n % d;
    if 2 * r < d {
        q
    } else if 2 * r > d {
        q + 1
    } else if q % 2 == 0 {
        q
    } else {
        q + 1
    }
}

/// Rounding a quotient to the nearest natural number, halves to even, lands
/// within half a unit of it, and on an even number when it is exactly half
/// way.
pub proof fn law_half_even_nearest(n: nat, d: nat)
    requires
        d > 0,
    ensures
        -(d as int) <= 2 * (round_half_even(n, d) * d - n) <= d,
        2 * (n % d) == d ==> round_half_even(n, d) % 2 == 0,
{
    let q = n / d;
    let r = n % d;
    vstd::arithmetic::div_mod::lemma_fundamental_div_mod(n as int, d as int);
    assert(n == d * q + r);
    assert((q + 1) * d == q * d + d) by (nonlinear_arith);
    assert(q * d == d * q) by (nonlinear_arith);
}

pub open spec fn abs(x: int) -> nat {
    if x < 0 {
        (-x) as nat
    } else {
        x as nat
    }
}

} // verus!
