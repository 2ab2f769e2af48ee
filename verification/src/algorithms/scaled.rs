//! Aave scaled balances: the actual token balance from a scaled balance and the
//! liquidity index.
use crate::bignum::{abs_int, from_u64, pow, pow_int, product, quotient, trunc_div, BigNum};
use vstd::prelude::*;

verus! {

/// RAY, the precision of Aave's scaled values: 10^27.
pub open spec fn ray() -> int {
    pow_int(10, 27)
}

proof fn lemma_pow_positive(base: int, exp: nat)
    requires
        base > 0,
    ensures
        pow_int(base, exp) > 0,
    decreases exp,
{
    if exp > 0 {
        lemma_pow_positive(base, (exp - 1) as nat);
        assert(base * pow_int(base, (exp - 1) as nat) > 0) by (nonlinear_arith)
            requires
                base > 0,
                pow_int(base, (exp - 1) as nat) > 0,
        ;
    }
}

/// RAY is positive.
pub proof fn lemma_ray_positive()
    ensures
        ray() > 0,
{
    lemma_pow_positive(10, 27);
}

/// Compute the actual token balance from a scaled balance and the liquidity index.
/// Both `scaled_balance` and `liquidity_index` are in RAY precision (1e27): the result is
/// their product divided by RAY, rounded toward zero.
pub fn compute_balance(scaled_balance: BigNum, liquidity_index: BigNum) -> (r: BigNum)
    ensures
        r@ == trunc_div(scaled_balance@ * liquidity_index@, ray()),
{
    let ray_value = pow(&from_u64(10), 27);
    proof {
        lemma_ray_positive();
    }
    quotient(&product(&scaled_balance, &liquidity_index), &ray_value)
}

/// With a liquidity index of exactly RAY (1.0), the balance is the scaled balance; with a
/// zero scaled balance, the balance is zero.
pub proof fn lemma_compute_balance_unit_and_zero(scaled: int, index: int)
    ensures
        trunc_div(scaled * ray(), ray()) == scaled,
        trunc_div(0 * index, ray()) == 0,
{
    lemma_ray_positive();
    let r = ray();
    assert(abs_int(scaled * r) == abs_int(scaled) * r) by (nonlinear_arith)
        requires
            r > 0,
    ;
    assert((abs_int(scaled) * r) / r == abs_int(scaled)) by (nonlinear_arith)
        requires
            r > 0,
            abs_int(scaled) >= 0,
    ;
    assert((scaled * r < 0) == (scaled < 0)) by (nonlinear_arith)
        requires
            r > 0,
    ;
    assert(0 * index == 0);
}

} // verus!
