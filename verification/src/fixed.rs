use vstd::prelude::*;

verus! {

/// Fixed-point scale: the real value `v` is carried as the integer `v * ONE`.
pub const ONE: i64 = 10_000;

/// Truncating (round-toward-zero) division, the rounding applied whenever a
/// fixed-point product is brought back to scale.  The divisor is positive.
pub open spec fn tdiv(n: int, d: int) -> int
    recommends
        d > 0,
{
    if n >= 0 {
        n / d
    } else {
        -((-n) / d)
    }
}

/// An exact multiple of the divisor is divided without loss.
pub proof fn lemma_tdiv_exact(k: int, d: int)
    requires
        d > 0,
    ensures
        tdiv(k * d, d) == k,
{
    if k >= 0 {
        assert(k * d >= 0) by (nonlinear_arith)
            requires
                k >= 0,
                d > 0;
        vstd::arithmetic::div_mod::lemma_div_multiples_vanish(k, d);
        assert(d * k == k * d) by (nonlinear_arith);
    } else {
        assert(k * d < 0) by (nonlinear_arith)
            requires
                k < 0,
                d > 0;
        vstd::arithmetic::div_mod::lemma_div_multiples_vanish(-k, d);
        assert(d * (-k) == -(k * d)) by (nonlinear_arith);
    }
}

/// A dividend whose Euclidean remainder is zero is an exact multiple, so the
/// truncating quotient times the divisor gives the dividend back.
pub proof fn lemma_tdiv_of_divisible(n: int, d: int)
    requires
        d > 0,
        n % d == 0,
    ensures
        tdiv(n, d) * d == n,
{
    vstd::arithmetic::div_mod::lemma_fundamental_div_mod(n, d);
    vstd::arithmetic::mul::lemma_mul_is_commutative(d, n / d);
    lemma_tdiv_exact(n / d, d);
}

/// Truncation toward zero is symmetric: negating the dividend negates the
/// quotient.
pub proof fn lemma_tdiv_neg(n: int, d: int)
    requires
        d > 0,
    ensures
        tdiv(-n, d) == -tdiv(n, d),
{
    if n == 0 {
        vstd::arithmetic::div_mod::lemma_div_of0(d);
    }
}

/// The truncating quotient is bounded once the dividend is.
pub proof fn lemma_tdiv_le(n: int, d: int, q: int)
    requires
        d > 0,
        q >= 0,
        -(q * d) <= n <= q * d,
    ensures
        -q <= tdiv(n, d) <= q,
{
    if n >= 0 {
        vstd::arithmetic::div_mod::lemma_div_is_ordered(n, q * d, d);
        lemma_tdiv_exact(q, d);
        vstd::arithmetic::div_mod::lemma_div_pos_is_pos(n, d);
    } else {
        vstd::arithmetic::div_mod::lemma_div_is_ordered(-n, q * d, d);
        lemma_tdiv_exact(q, d);
        vstd::arithmetic::div_mod::lemma_div_pos_is_pos(-n, d);
    }
}

/// Truncating division of a 128-bit value by a positive divisor, computed
/// through unsigned division so the rounding direction is explicit.
pub fn tdiv128(n: i128, d: i128) -> (q: i128)
    requires
        d > 0,
        n > i128::MIN,
    ensures
        q == tdiv(n as int, d as int),
{
    if n >= 0 {
        let un: u128 = n as u128;
        let ud: u128 = d as u128;
        let uq: u128 = un / ud;
        proof {
            vstd::arithmetic::div_mod::lemma_div_nonincreasing(un as int, ud as int);
            vstd::arithmetic::div_mod::lemma_div_pos_is_pos(un as int, ud as int);
        }
        uq as i128
    } else {
        let un: u128 = (-n) as u128;
        let ud: u128 = d as u128;
        let uq: u128 = un / ud;
        proof {
            vstd::arithmetic::div_mod::lemma_div_nonincreasing(un as int, ud as int);
            vstd::arithmetic::div_mod::lemma_div_pos_is_pos(un as int, ud as int);
        }
        -(uq as i128)
    }
}

} // verus!
