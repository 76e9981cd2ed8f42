//! Full-precision multiply-divide and round-up division on 256-bit words.
use crate::error::UniswapV3Error;
use crate::uint::{add_exact, checked_add, div_mod, div_mod_wide, full_mul, word_modulus, U256, U512};
use vstd::arithmetic::div_mod::lemma_fundamental_div_mod;
use vstd::prelude::*;

verus! {

/// `ceil(a / b)`, for `b > 0`.
pub open spec fn div_up(a: int, b: int) -> int {
    if a % b == 0 {
        a / b
    } else {
        a / b + 1
    }
}

/// The value that a computation on words yields, or its error.
pub open spec fn result_value(r: Result<U256, UniswapV3Error>) -> Result<int, UniswapV3Error> {
    match r {
        Ok(w) => Ok(w@),
        Err(e) => Err(e),
    }
}

/// `floor(a * b / d)` when `d` is nonzero and the quotient fits in 256 bits.
pub open spec fn mul_div_spec(a: int, b: int, d: int) -> Result<int, UniswapV3Error> {
    if d == 0 {
        Err(UniswapV3Error::DivisionByZero)
    } else if a * b / d >= word_modulus() {
        Err(UniswapV3Error::Overflow)
    } else {
        Ok(a * b / d)
    }
}

/// `ceil(a * b / d)` when `d` is nonzero and the quotient fits in 256 bits.
pub open spec fn mul_div_rounding_up_spec(a: int, b: int, d: int) -> Result<int, UniswapV3Error> {
    if d == 0 {
        Err(UniswapV3Error::DivisionByZero)
    } else if div_up(a * b, d) >= word_modulus() {
        Err(UniswapV3Error::Overflow)
    } else {
        Ok(div_up(a * b, d))
    }
}

/// `div_up(x, d)` is the least `k` with `k * d >= x`, and is `x / d` or one more.
pub proof fn lemma_div_up(x: int, d: int)
    requires
        0 <= x,
        0 < d,
    ensures
        div_up(x, d) * d >= x,
        (div_up(x, d) - 1) * d < x,
        x / d <= div_up(x, d) <= x / d + 1,
        0 <= x / d,
        0 <= div_up(x, d) <= x,
        x > 0 ==> div_up(x, d) >= 1,
        x / d * d <= x,
{
    lemma_fundamental_div_mod(x, d);
    let q = x / d;
    let m = x % d;
    assert(0 <= m < d);
    assert(q >= 0) by (nonlinear_arith)
        requires
            x == d * q + m,
            0 <= m < d,
            0 <= x,
    ;
    assert(q * d <= x && (q + 1) * d > x && (q - 1) * d < x) by (nonlinear_arith)
        requires
            x == d * q + m,
            0 <= m < d,
    ;
    assert(q <= x) by (nonlinear_arith)
        requires
            q * d <= x,
            d >= 1,
            q >= 0,
    ;
    if m != 0 {
        assert(q + 1 <= x) by (nonlinear_arith)
            requires
                x == d * q + m,
                0 < m < d,
                q >= 0,
        ;
        assert(div_up(x, d) == q + 1);
        assert(q * d == x - m) by (nonlinear_arith)
            requires
                x == d * q + m,
        ;
        assert((q + 1) * d > x) by (nonlinear_arith)
            requires
                q * d == x - m,
                m < d,
        ;
    } else {
        assert(div_up(x, d) == q);
        assert(q * d == x) by (nonlinear_arith)
            requires
                x == d * q + m,
                m == 0,
        ;
        assert(x > 0 ==> q >= 1) by (nonlinear_arith)
            requires
                q * d == x,
                q >= 0,
        ;
    }
}

/// Any `k` with `k * d >= x` is at least `div_up(x, d)`.
pub proof fn lemma_div_up_least(x: int, d: int, k: int)
    requires
        0 <= x,
        0 < d,
        k * d >= x,
    ensures
        div_up(x, d) <= k,
{
    lemma_div_up(x, d);
    let c = div_up(x, d);
    if c > k {
        assert((c - 1) * d >= k * d) by (nonlinear_arith)
            requires
                c - 1 >= k,
                d > 0,
        ;
    }
}

/// Rounding a quotient up never gives less than rounding it down, and gives at most one more;
/// so the round-up multiply-divide succeeds only where the round-down one does.
pub proof fn lemma_mul_div_rounding_order(a: U256, b: U256, denominator: U256)
    requires
        denominator@ > 0,
    ensures
        a@ * b@ / denominator@ <= div_up(a@ * b@, denominator@) <= a@ * b@ / denominator@ + 1,
        mul_div_rounding_up_spec(a@, b@, denominator@) is Ok ==> mul_div_spec(
            a@,
            b@,
            denominator@,
        ) is Ok,
        match (mul_div_spec(a@, b@, denominator@), mul_div_rounding_up_spec(a@, b@, denominator@)) {
            (Ok(down), Ok(up)) => down <= up <= down + 1,
            _ => true,
        },
{
    a.lemma_bounds();
    b.lemma_bounds();
    assert(a@ * b@ >= 0) by (nonlinear_arith)
        requires
            a@ >= 0,
            b@ >= 0,
    ;
    lemma_div_up(a@ * b@, denominator@);
}

/// `ceil(a / b)` of the two words, which always fits; `b` must be nonzero.
pub fn div_rounding_up(a: U256, b: U256) -> (r: U256)
    requires
        b@ != 0,
    ensures
        r@ == div_up(a@, b@),
        r@ * b@ >= a@,
        (r@ - 1) * b@ < a@,
{
    proof {
        a.lemma_bounds();
        b.lemma_bounds();
        lemma_div_up(a@, b@);
    }
    let (quotient, remainder) = div_mod(a, b);
    if remainder.is_zero() {
        quotient
    } else {
        proof {
            let q = quotient@;
            assert(b@ >= 2);
            assert(q + 1 < word_modulus()) by (nonlinear_arith)
                requires
                    b@ >= 2,
                    q >= 0,
                    q * b@ <= a@,
                    a@ < word_modulus(),
            ;
        }
        add_exact(quotient, U256::from_u128(1))
    }
}

/// The ceiling law of `div_rounding_up`: the result times `b` covers `a`, and one less does not.
pub proof fn lemma_div_rounding_up_bounds(a: U256, b: U256)
    requires
        b@ > 0,
    ensures
        div_up(a@, b@) * b@ >= a@,
        (div_up(a@, b@) - 1) * b@ < a@,
{
    a.lemma_bounds();
    lemma_div_up(a@, b@);
}

/// `floor(a * b / denominator)` computed over the full 512-bit product.
pub fn mul_div(a: U256, b: U256, denominator: U256) -> (r: Result<U256, UniswapV3Error>)
    ensures
        result_value(r) == mul_div_spec(a@, b@, denominator@),
{
    if denominator.is_zero() {
        return Err(UniswapV3Error::DivisionByZero);
    }
    let product = full_mul(a, b);
    let (quotient, _) = div_mod_wide(product, U512::from_u256(denominator));
    match quotient.to_u256() {
        Some(w) => Ok(w),
        None => Err(UniswapV3Error::Overflow),
    }
}

/// `ceil(a * b / denominator)` computed over the full 512-bit product.
pub fn mul_div_rounding_up(a: U256, b: U256, denominator: U256) -> (r: Result<
    U256,
    UniswapV3Error,
>)
    ensures
        result_value(r) == mul_div_rounding_up_spec(a@, b@, denominator@),
{
    if denominator.is_zero() {
        return Err(UniswapV3Error::DivisionByZero);
    }
    proof {
        lemma_mul_div_rounding_order(a, b, denominator);
    }
    let product = full_mul(a, b);
    let (quotient, remainder) = div_mod_wide(product, U512::from_u256(denominator));
    match quotient.to_u256() {
        Some(w) => {
            if remainder.is_zero() {
                Ok(w)
            } else {
                match checked_add(w, U256::from_u128(1)) {
                    Some(up) => Ok(up),
                    None => Err(UniswapV3Error::Overflow),
                }
            }
        },
        None => Err(UniswapV3Error::Overflow),
    }
}

} // verus!
