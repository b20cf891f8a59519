//! Division on the lattice: the quotient rounded down, and rounded to the
//! nearest whole number.

use vstd::prelude::*;
use vstd::arithmetic::div_mod::lemma_div_multiples_vanish_fancy;
use vstd::arithmetic::div_mod::lemma_fundamental_div_mod;
use vstd::arithmetic::div_mod::lemma_mod_bound;

verus! {

/// The quotient `n / d` rounded to the nearest whole number, halves rounded up.
pub open spec fn round_div(n: int, d: int) -> int {
    (2 * n + d) / (2 * d)
}

/// A whole number `q` is the rounded-down quotient of `n` by `d` exactly when
/// `n` lies in the `q`-th stretch of length `d`.
pub proof fn lemma_floor_div_unique(n: int, d: int, q: int)
    requires
        0 < d,
        q * d <= n < q * d + d,
    ensures
        n / d == q,
{
    assert(d * q + (n - q * d) == n) by (nonlinear_arith);
    lemma_div_multiples_vanish_fancy(q, n - q * d, d);
}

/// The rounded-down quotient brackets the dividend.
pub proof fn lemma_floor_div_bounds(n: int, d: int)
    requires
        0 < d,
    ensures
        (n / d) * d <= n < (n / d) * d + d,
{
    lemma_fundamental_div_mod(n, d);
    lemma_mod_bound(n, d);
    assert(d * (n / d) == (n / d) * d) by (nonlinear_arith);
}

/// The rounded quotient is off by at most half the divisor.
pub proof fn lemma_round_div_error(n: int, d: int)
    requires
        0 < d,
    ensures
        -d <= 2 * (round_div(n, d) * d - n) <= d,
{
    let q = round_div(n, d);
    lemma_floor_div_bounds(2 * n + d, 2 * d);
    assert(q * (2 * d) == 2 * (q * d)) by (nonlinear_arith);
}

/// The rounded quotient of a number between two multiples of the divisor lies
/// between their factors.
pub proof fn lemma_round_div_between(n: int, d: int, lo: int, hi: int)
    requires
        0 < d,
        lo * d <= n <= hi * d,
    ensures
        lo <= round_div(n, d) <= hi,
{
    let q = round_div(n, d);
    lemma_floor_div_bounds(2 * n + d, 2 * d);
    assert(q * (2 * d) == 2 * (q * d)) by (nonlinear_arith);
    if q < lo {
        assert((q + 1) * d <= lo * d) by (nonlinear_arith)
            requires
                q + 1 <= lo,
                0 < d,
        ;
        assert((q + 1) * d == q * d + d) by (nonlinear_arith);
    }
    if q > hi {
        assert(hi * d + d <= q * d) by (nonlinear_arith)
            requires
                hi + 1 <= q,
                0 < d,
        ;
    }
}

/// The rounded-down quotient of a number between two multiples of the
/// divisor lies between their factors.
pub proof fn lemma_floor_div_between(n: int, d: int, lo: int, hi: int)
    requires
        0 < d,
        lo <= n <= hi,
        lo <= 0 <= hi,
    ensures
        lo <= n / d <= hi,
{
    let q = n / d;
    lemma_floor_div_bounds(n, d);
    if q < lo {
        assert(q * d + d <= lo) by (nonlinear_arith)
            requires
                q + 1 <= lo,
                lo <= 0,
                0 < d,
        ;
    }
    if q > hi {
        assert(hi < q * d) by (nonlinear_arith)
            requires
                hi + 1 <= q,
                0 <= hi,
                0 < d,
        ;
    }
}

/// The quotient `n / d` rounded down.
pub fn floor_div(n: i128, d: i128) -> (q: i128)
    requires
        0 < d,
        -0x4000_0000_0000_0000_0000_0000_0000_0000 <= n <= 0x4000_0000_0000_0000_0000_0000_0000_0000,
    ensures
        q == n / d,
{
    if n >= 0 {
        n / d
    } else {
        let m: i128 = -n - 1;
        let k: i128 = m / d;
        proof {
            lemma_floor_div_bounds(m as int, d as int);
            assert((-k - 1) * d == -(k * d) - d) by (nonlinear_arith);
            lemma_floor_div_unique(n as int, d as int, -k - 1);
        }
        -k - 1
    }
}

/// The quotient `n / d` rounded to the nearest whole number, halves rounded up.
pub fn rounded_div(n: i128, d: i128) -> (q: i128)
    requires
        0 < d <= 0x1000_0000_0000_0000_0000_0000_0000_0000,
        -0x1000_0000_0000_0000_0000_0000_0000_0000 <= n <= 0x1000_0000_0000_0000_0000_0000_0000_0000,
    ensures
        q == round_div(n as int, d as int),
{
    floor_div(2 * n + d, 2 * d)
}

} // verus!
