//! Division of whole numbers with a stated rounding.
//!
//! The colour formulas divide and then round, either to the nearest whole
//! number or up. Both are defined here in closed form, and each is shown to
//! be the one whole number that lies where the rounding says it should.

use vstd::prelude::*;
use vstd::arithmetic::div_mod::{
    lemma_fundamental_div_mod,
    lemma_fundamental_div_mod_converse,
    lemma_mod_bound,
};

verus! {

/// The whole number nearest to `n / d`; a value half-way between two whole
/// numbers goes to the larger one.
pub open spec fn round_div(n: int, d: int) -> int {
    (2 * n + d) / (2 * d)
}

/// The least whole number that is not below `n / d`.
pub open spec fn ceil_div(n: int, d: int) -> int {
    (n + d - 1) / d
}

/// `q - 1/2 <= n / d < q + 1/2`, written without fractions.
pub open spec fn is_nearest(q: int, n: int, d: int) -> bool {
    2 * (d * q) - d <= 2 * n < 2 * (d * q) + d
}

/// `q - 1 < n / d <= q`, written without fractions.
pub open spec fn is_ceiling(q: int, n: int, d: int) -> bool {
    d * q - d < n <= d * q
}

/// `round_div(n, d)` lies within one half of `n / d`.
pub proof fn lemma_round_div_is_nearest(n: int, d: int)
    requires
        d > 0,
    ensures
        is_nearest(round_div(n, d), n, d),
{
    let x = 2 * n + d;
    let m = 2 * d;
    let q = x / m;
    lemma_fundamental_div_mod(x, m);
    lemma_mod_bound(x, m);
    assert(m * q == 2 * (d * q)) by (nonlinear_arith)
        requires
            m == 2 * d,
    ;
}

/// Only one whole number lies within one half of `n / d`, the upper half
/// left out: it is `round_div(n, d)`.
pub proof fn lemma_nearest_is_round_div(q: int, n: int, d: int)
    requires
        d > 0,
        is_nearest(q, n, d),
    ensures
        q == round_div(n, d),
{
    let x = 2 * n + d;
    let m = 2 * d;
    assert(q * m == 2 * (d * q)) by (nonlinear_arith)
        requires
            m == 2 * d,
    ;
    lemma_fundamental_div_mod_converse(x, m, q, x - q * m);
}

/// `ceil_div(n, d)` is not below `n / d`, and less than one above it.
pub proof fn lemma_ceil_div_is_ceiling(n: int, d: int)
    requires
        d > 0,
    ensures
        is_ceiling(ceil_div(n, d), n, d),
{
    let x = n + d - 1;
    lemma_fundamental_div_mod(x, d);
    lemma_mod_bound(x, d);
}

/// Only one whole number is not below `n / d` and less than one above it:
/// it is `ceil_div(n, d)`.
pub proof fn lemma_ceiling_is_ceil_div(q: int, n: int, d: int)
    requires
        d > 0,
        is_ceiling(q, n, d),
    ensures
        q == ceil_div(n, d),
{
    let x = n + d - 1;
    assert(q * d == d * q) by (nonlinear_arith);
    lemma_fundamental_div_mod_converse(x, d, q, x - q * d);
}

/// Rounding to the nearest whole number never passes a whole bound:
/// if `n / d <= k` then `round_div(n, d) <= k`.
pub proof fn lemma_round_div_upper(n: int, d: int, k: int)
    requires
        d > 0,
        n <= k * d,
    ensures
        round_div(n, d) <= k,
{
    let q = round_div(n, d);
    lemma_round_div_is_nearest(n, d);
    assert(q <= k) by (nonlinear_arith)
        requires
            d > 0,
            n <= k * d,
            2 * (d * q) - d <= 2 * n,
    ;
}

/// If `n / d >= k` then `round_div(n, d) >= k`.
pub proof fn lemma_round_div_lower(n: int, d: int, k: int)
    requires
        d > 0,
        n >= k * d,
    ensures
        round_div(n, d) >= k,
{
    let q = round_div(n, d);
    lemma_round_div_is_nearest(n, d);
    assert(q >= k) by (nonlinear_arith)
        requires
            d > 0,
            n >= k * d,
            2 * n < 2 * (d * q) + d,
    ;
}

/// A quotient that is a whole number is its own rounding, either way.
pub proof fn lemma_exact_quotient(k: int, d: int)
    requires
        d > 0,
    ensures
        round_div(k * d, d) == k,
        ceil_div(k * d, d) == k,
{
    assert(k * d == d * k) by (nonlinear_arith);
    lemma_nearest_is_round_div(k, k * d, d);
    lemma_ceiling_is_ceil_div(k, k * d, d);
}

} // verus!
