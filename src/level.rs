//! Normalized brightness levels.
//!
//! A level is a fixed-point number: `0` is off and `FULL` is the device's
//! maximum. Holding levels as integers keeps every conversion and every
//! interpolation step exact and checkable.
use vstd::prelude::*;

verus! {

/// The level that stands for full brightness (one part in ten billion of
/// resolution, finer than any raw range a `u32` can describe).
pub const FULL: u64 = 10_000_000_000;

/// Retargets closer than this to the current level snap instead of fading
/// (one ten-thousandth of full brightness).
pub const SNAP_EPSILON: u64 = 1_000_000;

pub open spec fn clamp_spec(x: int) -> int {
    if x > FULL as int {
        FULL as int
    } else {
        x
    }
}

/// Limits a level to the range `0..=FULL`.
pub fn clamp01(x: u64) -> (r: u64)
    ensures
        r == clamp_spec(x as int),
        r <= FULL,
{
    if x > FULL {
        FULL
    } else {
        x
    }
}

/// The distance between two levels.
pub open spec fn distance(a: int, b: int) -> int {
    if a >= b {
        a - b
    } else {
        b - a
    }
}

/// Linear interpolation from `a` to `b` at `num / den` of the way, rounded
/// towards `a`; `num >= den` gives `b` itself.
pub open spec fn lerp_spec(a: int, b: int, num: int, den: int) -> int {
    if num >= den {
        b
    } else if b >= a {
        a + (b - a) * num / den
    } else {
        a - (a - b) * num / den
    }
}

/// Linear interpolation between two levels (see `lerp_spec`).
pub fn lerp(a: u64, b: u64, num: u64, den: u64) -> (r: u64)
    ensures
        r == lerp_spec(a as int, b as int, num as int, den as int),
{
    if num >= den {
        return b;
    }
    proof {
        let delta: int = if b >= a { (b - a) as int } else { (a - b) as int };
        lemma_part_below(delta, num as int, den as int);
        assert(delta * num < 0x1_0000_0000_0000_0000 * 0x1_0000_0000_0000_0000) by (nonlinear_arith)
            requires
                0 <= delta < 0x1_0000_0000_0000_0000,
                0 <= num < 0x1_0000_0000_0000_0000,
        ;
    }
    if b >= a {
        let step = ((b - a) as u128) * (num as u128) / (den as u128);
        a + step as u64
    } else {
        let step = ((a - b) as u128) * (num as u128) / (den as u128);
        a - step as u64
    }
}

/// A share `num / den < 1` of a non-negative amount is at most the amount.
pub proof fn lemma_part_below(delta: int, num: int, den: int)
    requires
        delta >= 0,
        0 <= num < den,
    ensures
        0 <= delta * num / den <= delta,
{
    assert(delta * num <= delta * den) by (nonlinear_arith)
        requires
            delta >= 0,
            0 <= num < den,
    ;
    assert(delta * num >= 0) by (nonlinear_arith)
        requires
            delta >= 0,
            num >= 0,
    ;
    let x = delta * num;
    let q = x / den;
    vstd::arithmetic::div_mod::lemma_fundamental_div_mod(x, den);
    vstd::arithmetic::div_mod::lemma_mod_bound(x, den);
    assert(0 <= q <= delta) by (nonlinear_arith)
        requires
            x == den * q + x % den,
            0 <= x % den < den,
            0 <= x <= delta * den,
            den > 0,
            delta >= 0,
    ;
}

/// Interpolation moves monotonically from `a` towards `b` as `num` grows.
pub proof fn lemma_lerp_monotonic(a: int, b: int, n1: int, n2: int, den: int)
    requires
        a >= 0,
        b >= 0,
        0 <= n1 <= n2,
        den > 0,
    ensures
        b >= a ==> a <= lerp_spec(a, b, n1, den) <= lerp_spec(a, b, n2, den) <= b,
        b < a ==> a >= lerp_spec(a, b, n1, den) >= lerp_spec(a, b, n2, den) >= b,
{
    let delta = if b >= a { b - a } else { a - b };
    if n1 < den {
        lemma_part_below(delta, n1, den);
    }
    if n2 < den {
        lemma_part_below(delta, n2, den);
        assert(delta * n1 <= delta * n2) by (nonlinear_arith)
            requires
                delta >= 0,
                n1 <= n2,
        ;
        vstd::arithmetic::div_mod::lemma_div_is_ordered(delta * n1, delta * n2, den);
    }
}

} // verus!
