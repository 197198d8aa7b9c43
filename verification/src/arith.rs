//! Exact integer division helpers: division rounded to the nearest integer
//! (ties away from zero, matching how the timing code rounds beat positions)
//! and division truncated toward zero (matching how rate scaling divides
//! microsecond times).

use vstd::prelude::*;

verus! {

/// Largest magnitude accepted by the executable division helpers; generous
/// enough for every value the timing pipeline produces while keeping
/// `2 * a + b` inside `u128`.
pub const DIV_ARG_LIMIT: i128 = 1_000_000_000_000_000_000_000_000_000_000;

/// Division of `a` by `b > 0`, rounded to the nearest integer with ties away
/// from zero.
pub open spec fn round_div(a: int, b: int) -> int
    recommends
        b > 0,
{
    if a >= 0 {
        (2 * a + b) / (2 * b)
    } else {
        -((2 * (-a) + b) / (2 * b))
    }
}

/// Division of `a` by `b > 0`, truncated toward zero.
pub open spec fn trunc_div(a: int, b: int) -> int
    recommends
        b > 0,
{
    if a >= 0 {
        a / b
    } else {
        -((-a) / b)
    }
}

/// The rounded quotient is off from the exact ratio by at most half the
/// divisor: `|round_div(a, b) * b - a| <= b / 2`.
pub proof fn lemma_round_div_error(a: int, b: int)
    requires
        b > 0,
    ensures
        2 * (round_div(a, b) * b - a) <= b,
        -b <= 2 * (round_div(a, b) * b - a),
{
    if a >= 0 {
        let q = (2 * a + b) / (2 * b);
        let r = (2 * a + b) % (2 * b);
        vstd::arithmetic::div_mod::lemma_fundamental_div_mod(2 * a + b, 2 * b);
        assert(0 <= r < 2 * b) by (nonlinear_arith)
            requires
                b > 0,
                r == (2 * a + b) % (2 * b),
        ;
        assert(2 * (q * b - a) == b - r) by (nonlinear_arith)
            requires
                2 * a + b == 2 * b * q + r,
        ;
    } else {
        let q = (2 * (-a) + b) / (2 * b);
        let r = (2 * (-a) + b) % (2 * b);
        vstd::arithmetic::div_mod::lemma_fundamental_div_mod(2 * (-a) + b, 2 * b);
        assert(0 <= r < 2 * b) by (nonlinear_arith)
            requires
                b > 0,
                r == (2 * (-a) + b) % (2 * b),
        ;
        assert(2 * ((-q) * b - a) == r - b) by (nonlinear_arith)
            requires
                2 * (-a) + b == 2 * b * q + r,
        ;
    }
}

/// Rounding an exact multiple recovers the factor.
pub proof fn lemma_round_div_exact(q: int, b: int)
    requires
        b > 0,
    ensures
        round_div(q * b, b) == q,
{
    lemma_round_div_error(q * b, b);
    let r = round_div(q * b, b);
    assert(r == q) by (nonlinear_arith)
        requires
            b > 0,
            2 * (r * b - q * b) <= b,
            -b <= 2 * (r * b - q * b),
    ;
}

/// A value within half of `b` of an exact multiple rounds to that multiple's
/// factor.
pub proof fn lemma_round_div_near(q: int, x: int, b: int)
    requires
        b > 0,
        2 * x < b,
        -b < 2 * x,
    ensures
        round_div(q * b + x, b) == q,
{
    lemma_round_div_error(q * b + x, b);
    let r = round_div(q * b + x, b);
    assert(r == q) by (nonlinear_arith)
        requires
            b > 0,
            2 * x < b,
            -b < 2 * x,
            2 * (r * b - (q * b + x)) <= b,
            -b <= 2 * (r * b - (q * b + x)),
    ;
}

/// Rounded division is monotone in the dividend.
pub proof fn lemma_round_div_monotone(a1: int, a2: int, b: int)
    requires
        b > 0,
        a1 <= a2,
    ensures
        round_div(a1, b) <= round_div(a2, b),
{
    if a1 >= 0 {
        vstd::arithmetic::div_mod::lemma_div_is_ordered(2 * a1 + b, 2 * a2 + b, 2 * b);
    } else if a2 < 0 {
        vstd::arithmetic::div_mod::lemma_div_is_ordered(2 * (-a2) + b, 2 * (-a1) + b, 2 * b);
    } else {
        vstd::arithmetic::div_mod::lemma_div_pos_is_pos(2 * a2 + b, 2 * b);
        vstd::arithmetic::div_mod::lemma_div_pos_is_pos(2 * (-a1) + b, 2 * b);
    }
}

/// Rounded division of a nonnegative value is nonnegative.
pub proof fn lemma_round_div_nonneg(a: int, b: int)
    requires
        b > 0,
        a >= 0,
    ensures
        round_div(a, b) >= 0,
{
    vstd::arithmetic::div_mod::lemma_div_pos_is_pos(2 * a + b, 2 * b);
}

/// The rounded quotient never exceeds the dividend in magnitude.
pub proof fn lemma_round_div_magnitude(a: int, b: int)
    requires
        b > 0,
    ensures
        a >= 0 ==> 0 <= round_div(a, b) <= a,
        a < 0 ==> a <= round_div(a, b) <= 0,
{
    if a >= 0 {
        lemma_round_div_nonneg(a, b);
        let q = (2 * a + b) / (2 * b);
        vstd::arithmetic::div_mod::lemma_fundamental_div_mod(2 * a + b, 2 * b);
        let r = (2 * a + b) % (2 * b);
        assert(0 <= r < 2 * b) by (nonlinear_arith)
            requires
                b > 0,
                r == (2 * a + b) % (2 * b),
        ;
        assert(q <= a) by (nonlinear_arith)
            requires
                b > 0,
                a >= 0,
                0 <= r < 2 * b,
                2 * a + b == 2 * b * q + r,
        ;
    } else {
        let q = (2 * (-a) + b) / (2 * b);
        vstd::arithmetic::div_mod::lemma_fundamental_div_mod(2 * (-a) + b, 2 * b);
        let r = (2 * (-a) + b) % (2 * b);
        assert(0 <= r < 2 * b) by (nonlinear_arith)
            requires
                b > 0,
                r == (2 * (-a) + b) % (2 * b),
        ;
        assert(q <= -a) by (nonlinear_arith)
            requires
                b > 0,
                -a > 0,
                0 <= r < 2 * b,
                2 * (-a) + b == 2 * b * q + r,
        ;
        vstd::arithmetic::div_mod::lemma_div_pos_is_pos(2 * (-a) + b, 2 * b);
    }
}

/// Truncating an exact multiple recovers the factor.
pub proof fn lemma_trunc_div_exact(q: int, b: int)
    requires
        b > 0,
    ensures
        trunc_div(q * b, b) == q,
{
    if q >= 0 {
        assert(q * b >= 0 && q * b == b * q) by (nonlinear_arith)
            requires
                b > 0,
                q >= 0,
        ;
        vstd::arithmetic::div_mod::lemma_div_multiples_vanish(q, b);
    } else {
        assert(q * b < 0 && -(q * b) == b * (-q)) by (nonlinear_arith)
            requires
                b > 0,
                q < 0,
        ;
        vstd::arithmetic::div_mod::lemma_div_multiples_vanish(-q, b);
    }
}

/// The truncated quotient never exceeds the dividend in magnitude.
pub proof fn lemma_trunc_div_magnitude(a: int, b: int)
    requires
        b > 0,
    ensures
        a >= 0 ==> 0 <= trunc_div(a, b) <= a,
        a < 0 ==> a <= trunc_div(a, b) <= 0,
{
    if a >= 0 {
        vstd::arithmetic::div_mod::lemma_div_pos_is_pos(a, b);
        vstd::arithmetic::div_mod::lemma_div_is_ordered_by_denominator(a, 1, b);
        vstd::arithmetic::div_mod::lemma_div_by_self(1);
    } else {
        vstd::arithmetic::div_mod::lemma_div_pos_is_pos(-a, b);
        vstd::arithmetic::div_mod::lemma_div_is_ordered_by_denominator(-a, 1, b);
        vstd::arithmetic::div_mod::lemma_div_by_self(1);
    }
}

/// Executable rounded division on `i128`, mirroring [`round_div`].
pub fn round_div_i128(a: i128, b: i128) -> (r: i128)
    requires
        0 < b <= DIV_ARG_LIMIT,
        -DIV_ARG_LIMIT <= a <= DIV_ARG_LIMIT,
    ensures
        r == round_div(a as int, b as int),
{
    proof {
        lemma_round_div_magnitude(a as int, b as int);
    }
    if a >= 0 {
        let q: u128 = (2 * (a as u128) + (b as u128)) / (2 * (b as u128));
        q as i128
    } else {
        let q: u128 = (2 * ((-a) as u128) + (b as u128)) / (2 * (b as u128));
        -(q as i128)
    }
}

/// Executable truncating division on `i128`, mirroring [`trunc_div`].
pub fn trunc_div_i128(a: i128, b: i128) -> (r: i128)
    requires
        0 < b <= DIV_ARG_LIMIT,
        -DIV_ARG_LIMIT <= a <= DIV_ARG_LIMIT,
    ensures
        r == trunc_div(a as int, b as int),
{
    proof {
        lemma_trunc_div_magnitude(a as int, b as int);
    }
    if a >= 0 {
        let q: u128 = (a as u128) / (b as u128);
        q as i128
    } else {
        let q: u128 = ((-a) as u128) / (b as u128);
        -(q as i128)
    }
}

} // verus!
