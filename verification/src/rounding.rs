//! Rounding a fraction to the nearest whole number.

use vstd::prelude::*;
use vstd::arithmetic::div_mod::lemma_fundamental_div_mod;
use vstd::arithmetic::div_mod::lemma_fundamental_div_mod_converse;

verus! {

/// The whole number nearest to the fraction n/d, where d is positive; of two
/// that are equally near, the lower.
pub open spec fn nearest(n: int, d: int) -> int {
    -((d - 2 * n) / (2 * d))
}

/// `nearest(n, d)` is at most half a unit from n/d, and where two whole
/// numbers are that near it is the lower one.
pub proof fn lemma_nearest_is_nearest(n: int, d: int)
    requires
        d > 0,
    ensures
        (2 * nearest(n, d) - 1) * d < 2 * n <= (2 * nearest(n, d) + 1) * d,
{
    let m = d - 2 * n;
    let dd = 2 * d;
    let q = m / dd;
    lemma_fundamental_div_mod(m, dd);
    assert(m == dd * q + m % dd);
    assert(0 <= m % dd < dd);
    assert(dd * q == 2 * (q * d)) by (nonlinear_arith)
        requires
            dd == 2 * d,
    ;
    assert((2 * (-q) - 1) * d == -2 * (q * d) - d) by (nonlinear_arith);
    assert((2 * (-q) + 1) * d == -2 * (q * d) + d) by (nonlinear_arith);
}

/// A whole number that is within half a unit of n/d, and is the lower one of
/// two such, is `nearest(n, d)`.
pub proof fn lemma_nearest_unique(n: int, d: int, q: int)
    requires
        d > 0,
        (2 * q - 1) * d < 2 * n <= (2 * q + 1) * d,
    ensures
        q == nearest(n, d),
{
    let m = d - 2 * n;
    let dd = 2 * d;
    assert((2 * q - 1) * d == 2 * (q * d) - d) by (nonlinear_arith);
    assert((2 * q + 1) * d == 2 * (q * d) + d) by (nonlinear_arith);
    assert((-q) * dd == -2 * (q * d)) by (nonlinear_arith)
        requires
            dd == 2 * d,
    ;
    let r = m - (-q) * dd;
    assert(0 <= r < dd);
    lemma_fundamental_div_mod_converse(m, dd, -q, r);
}

/// The whole number nearest to n/d, the lower of two equally near. The bounds
/// keep the work within 128 bits.
pub fn nearest_whole(n: i128, d: i128) -> (q: i128)
    requires
        0 < d <= 10_000_000_000_000_000_000_000_000_000_000_000,
        -40_000_000_000_000_000_000_000_000_000_000_000_000 <= n
            <= 40_000_000_000_000_000_000_000_000_000_000_000_000,
    ensures
        q == nearest(n as int, d as int),
{
    let m: i128 = d - 2 * n;
    let dd: i128 = 2 * d;
    if m >= 0 {
        -(m / dd)
    } else {
        let up: i128 = (-m) + dd - 1;
        let c: i128 = up / dd;
        proof {
            lemma_fundamental_div_mod(up as int, dd as int);
            assert(dd * c == c * dd && (-c) * dd == -(c * dd)) by (nonlinear_arith);
            let r = (up as int) % (dd as int);
            lemma_fundamental_div_mod_converse(m as int, dd as int, -(c as int), dd - 1 - r);
        }
        c
    }
}

} // verus!
