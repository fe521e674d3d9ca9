//! Integer division with the rounding rules the engine uses.
use vstd::prelude::*;

verus! {

/// Quotient of `n` by a positive `d`, rounded toward zero.
pub open spec fn trunc_div(n: int, d: int) -> int {
    if n >= 0 {
        n / d
    } else {
        -((-n) / d)
    }
}

/// Quotient of `n` by a positive `d`, rounded to the nearest integer, halves away from zero.
pub open spec fn round_div(n: int, d: int) -> int {
    if n >= 0 {
        (2 * n + d) / (2 * d)
    } else {
        -((-2 * n + d) / (2 * d))
    }
}

/// Integer division on `i128`, rounded toward zero.
pub fn div_toward_zero(n: i128, d: i128) -> (q: i128)
    requires
        d > 0,
        n > i128::MIN,
    ensures
        q == trunc_div(n as int, d as int),
{
    if n >= 0 {
        ((n as u128) / (d as u128)) as i128
    } else {
        let m: u128 = (-n) as u128;
        let r: u128 = m / (d as u128);
        assert(r <= m) by (nonlinear_arith)
            requires
                r == m / (d as u128),
                d > 0,
        ;
        -(r as i128)
    }
}

/// Integer division on `i128`, rounded to the nearest integer, halves away from zero.
pub fn div_round(n: i128, d: i128) -> (q: i128)
    requires
        d > 0,
        -0x2000_0000_0000_0000_0000_0000_0000_0000 < n < 0x2000_0000_0000_0000_0000_0000_0000_0000,
        d < 0x2000_0000_0000_0000_0000_0000_0000_0000,
    ensures
        q == round_div(n as int, d as int),
{
    if n >= 0 {
        let r: u128 = ((2 * n + d) as u128) / ((2 * d) as u128);
        assert(r <= 2 * n + d) by (nonlinear_arith)
            requires
                r == ((2 * n + d) as u128) / ((2 * d) as u128),
                d > 0,
                n >= 0,
        ;
        r as i128
    } else {
        let r: u128 = ((-2 * n + d) as u128) / ((2 * d) as u128);
        assert(r <= -2 * n + d) by (nonlinear_arith)
            requires
                r == ((-2 * n + d) as u128) / ((2 * d) as u128),
                d > 0,
                n < 0,
        ;
        -(r as i128)
    }
}

/// Dividing the negation of a number negates the quotient rounded toward zero.
pub proof fn lemma_trunc_div_neg(n: int, d: int)
    requires
        d > 0,
    ensures
        trunc_div(-n, d) == -trunc_div(n, d),
{
    if n == 0 {
        assert(0int / d == 0) by (nonlinear_arith)
            requires
                d > 0,
        ;
    }
}

/// A product of two bounded non-negative factors is bounded by the product of the bounds.
pub proof fn lemma_mul_le(a: int, b: int, ba: int, bb: int)
    requires
        0 <= a <= ba,
        0 <= b <= bb,
    ensures
        0 <= a * b <= ba * bb,
{
    assert(0 <= a * b <= ba * bb) by (nonlinear_arith)
        requires
            0 <= a <= ba,
            0 <= b <= bb,
    ;
}

/// A bounded non-negative factor times a factor bounded in magnitude.
pub proof fn lemma_mul_signed_le(k: int, x: int, bk: int, bx: int)
    requires
        0 <= k <= bk,
        -bx <= x <= bx,
    ensures
        -(bk * bx) <= k * x <= bk * bx,
{
    assert(-(bk * bx) <= k * x <= bk * bx) by (nonlinear_arith)
        requires
            0 <= k <= bk,
            -bx <= x <= bx,
    ;
}

} // verus!
