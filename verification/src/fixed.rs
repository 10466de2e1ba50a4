//! Fixed-point arithmetic on micro-unit quantities.
//!
//! A quantity `q` in natural units (inches, feet, trees per acre, square
//! feet per acre, ...) is stored as the integer `q * 1_000_000`, truncated
//! toward zero. Products and quotients of micro-unit values are computed
//! through 128-bit intermediates, so they are exact up to the final
//! truncating division.

use vstd::prelude::*;

verus! {

/// Number of micro-units in one natural unit.
pub const MICRO: u64 = 1_000_000;

/// Floor of the square root of a natural number.
pub open spec fn sqrt_floor(x: nat) -> nat
    decreases x,
{
    if x == 0 {
        0
    } else {
        let s = sqrt_floor((x - 1) as nat);
        if (s + 1) * (s + 1) <= x {
            s + 1
        } else {
            s
        }
    }
}

/// `sqrt_floor(x)` is the greatest integer whose square is at most `x`.
pub proof fn lemma_sqrt_floor_bounds(x: nat)
    ensures
        sqrt_floor(x) * sqrt_floor(x) <= x,
        x < (sqrt_floor(x) + 1) * (sqrt_floor(x) + 1),
    decreases x,
{
    if x == 0 {
        assert(sqrt_floor(0) == 0);
        assert(0 * 0 <= 0);
        assert(0 < (0 + 1) * (0 + 1)) by (nonlinear_arith);
    } else {
        let s = sqrt_floor((x - 1) as nat);
        lemma_sqrt_floor_bounds((x - 1) as nat);
        if (s + 1) * (s + 1) <= x {
            assert(sqrt_floor(x) == s + 1);
            assert(x < (s + 2) * (s + 2)) by (nonlinear_arith)
                requires
                    x <= (s + 1) * (s + 1),
            ;
            assert(sqrt_floor(x) * sqrt_floor(x) <= x);
            assert(x < (sqrt_floor(x) + 1) * (sqrt_floor(x) + 1));
        } else {
            assert(sqrt_floor(x) == s);
            assert(sqrt_floor(x) * sqrt_floor(x) <= x);
            assert(x < (sqrt_floor(x) + 1) * (sqrt_floor(x) + 1));
        }
    }
}

/// Any `r` with `r * r <= x < (r + 1) * (r + 1)` is `sqrt_floor(x)`.
pub proof fn lemma_sqrt_floor_unique(x: nat, r: nat)
    requires
        r * r <= x,
        x < (r + 1) * (r + 1),
    ensures
        r == sqrt_floor(x),
{
    let s = sqrt_floor(x);
    lemma_sqrt_floor_bounds(x);
    assert(r == s) by (nonlinear_arith)
        requires
            r * r <= x,
            x < (r + 1) * (r + 1),
            s * s <= x,
            x < (s + 1) * (s + 1),
    ;
}

/// One more than `u64::MAX`: the square root of any 128-bit value is below it.
pub const TWO_POW_64: u128 = 18_446_744_073_709_551_616;

/// Floor of the square root, by binary search on the answer.
pub fn isqrt(x: u128) -> (r: u128)
    ensures
        r == sqrt_floor(x as nat),
        r <= u64::MAX,
{
    let mut lo: u128 = 0;
    let mut hi: u128 = TWO_POW_64;
    proof {
        assert(TWO_POW_64 * TWO_POW_64 > u128::MAX) by (nonlinear_arith);
    }
    while lo + 1 < hi
        invariant
            lo < hi,
            hi <= TWO_POW_64,
            lo * lo <= x,
            x < hi * hi,
        decreases hi - lo,
    {
        let mid: u128 = lo + (hi - lo) / 2;
        proof {
            assert(mid * mid <= u128::MAX) by (nonlinear_arith)
                requires
                    mid < TWO_POW_64,
                    TWO_POW_64 * TWO_POW_64 - 1 >= u128::MAX,
            ;
        }
        if mid * mid <= x {
            lo = mid;
        } else {
            hi = mid;
        }
    }
    proof {
        lemma_sqrt_floor_unique(x as nat, lo as nat);
    }
    lo
}

/// Multiplication is monotone on non-negative factors.
pub proof fn lemma_mul_le(a: int, b: int, c: int, d: int)
    requires
        0 <= a <= c,
        0 <= b <= d,
    ensures
        a * b <= c * d,
{
    assert(a * b <= c * d) by (nonlinear_arith)
        requires
            0 <= a <= c,
            0 <= b <= d,
    ;
}

/// A quotient is at most `b` when the dividend is at most `d * b`.
pub proof fn lemma_div_le(x: int, d: int, b: int)
    requires
        0 <= x,
        0 <= b,
        0 < d,
        x <= d * b,
    ensures
        0 <= x / d <= b,
{
    vstd::arithmetic::div_mod::lemma_div_is_ordered(x, d * b, d);
    vstd::arithmetic::div_mod::lemma_div_multiples_vanish(b, d);
    vstd::arithmetic::div_mod::lemma_div_pos_is_pos(x, d);
}

/// `a * b / c` on 64-bit values, exact through a 128-bit intermediate.
pub fn mul_div(a: u64, b: u64, c: u64) -> (r: u64)
    requires
        c > 0,
        a * b / (c as int) <= u64::MAX,
    ensures
        r == a * b / (c as int),
{
    proof {
        assert((a as int) * (b as int) <= (u64::MAX as int) * (u64::MAX as int))
            by (nonlinear_arith)
            requires
                a <= u64::MAX,
                b <= u64::MAX,
        ;
    }
    let wide: u128 = (a as u128) * (b as u128) / (c as u128);
    wide as u64
}

} // verus!
