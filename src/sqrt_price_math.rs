//! Sqrt-price transitions for a swap of either token, and the token amounts
//! that a liquidity position spans between two sqrt-prices.
use crate::error::UniswapV3Error;
use crate::full_math::{
    div_rounding_up, div_up, lemma_div_up, lemma_div_up_least, mul_div, mul_div_rounding_up, mul_div_rounding_up_spec,
    mul_div_spec, result_value,
};
use crate::uint::{
    checked_add, checked_mul, checked_sub, div_mod, lemma_pow2_96, q96, shl, sub_exact,
    two_pow_160, two_pow_255, word_modulus, I256, U256,
};
use vstd::arithmetic::div_mod::{lemma_div_is_ordered, lemma_fundamental_div_mod, lemma_small_mod};
use vstd::prelude::*;

verus! {

/// The sqrt-price after `amount` of token0 is added to (`add`) or taken from the pool,
/// rounded up; the arithmetic and its fallback are those of the 256-bit computation.
pub open spec fn next_price_from_amount_0_spec(
    price: int,
    liquidity: int,
    amount: int,
    add: bool,
) -> Result<int, UniswapV3Error> {
    if amount == 0 {
        Ok(price)
    } else {
        let numerator = liquidity * q96();
        let product = amount * price;
        if add {
            if product < word_modulus() && numerator + product < word_modulus() {
                mul_div_rounding_up_spec(numerator, price, numerator + product)
            } else if numerator / price + amount < word_modulus() {
                Ok(div_up(numerator, numerator / price + amount))
            } else {
                Err(UniswapV3Error::Overflow)
            }
        } else if product < word_modulus() && numerator > product {
            mul_div_rounding_up_spec(numerator, price, numerator - product)
        } else {
            Err(UniswapV3Error::ProductDivAmount)
        }
    }
}

/// The sqrt-price after `amount` of token1 is added to (`add`) or taken from the pool:
/// the price moves by `amount * 2^96 / liquidity`, rounded so that the new price is rounded down.
pub open spec fn next_price_from_amount_1_spec(
    price: int,
    liquidity: int,
    amount: int,
    add: bool,
) -> Result<int, UniswapV3Error> {
    if liquidity == 0 {
        Err(UniswapV3Error::DivisionByZero)
    } else if add {
        let quotient = amount * q96() / liquidity;
        if price + quotient < word_modulus() {
            Ok(price + quotient)
        } else {
            Err(UniswapV3Error::Overflow)
        }
    } else {
        let quotient = div_up(amount * q96(), liquidity);
        if quotient <= price {
            Ok(price - quotient)
        } else {
            Err(UniswapV3Error::Overflow)
        }
    }
}

/// The sqrt-price after `amount_in` is swapped in: token0 when `zero_for_one`, else token1.
pub open spec fn next_price_from_input_spec(
    price: int,
    liquidity: int,
    amount_in: int,
    zero_for_one: bool,
) -> Result<int, UniswapV3Error> {
    if price == 0 {
        Err(UniswapV3Error::SqrtPriceIsZero)
    } else if liquidity == 0 {
        Err(UniswapV3Error::LiquidityIsZero)
    } else if zero_for_one {
        next_price_from_amount_0_spec(price, liquidity, amount_in, true)
    } else {
        next_price_from_amount_1_spec(price, liquidity, amount_in, true)
    }
}

/// The sqrt-price after `amount_out` is swapped out: token1 when `zero_for_one`, else token0.
pub open spec fn next_price_from_output_spec(
    price: int,
    liquidity: int,
    amount_out: int,
    zero_for_one: bool,
) -> Result<int, UniswapV3Error> {
    if price == 0 {
        Err(UniswapV3Error::SqrtPriceIsZero)
    } else if liquidity == 0 {
        Err(UniswapV3Error::LiquidityIsZero)
    } else if zero_for_one {
        next_price_from_amount_1_spec(price, liquidity, amount_out, false)
    } else {
        next_price_from_amount_0_spec(price, liquidity, amount_out, false)
    }
}

/// `liquidity * 2^96` as a word: the shift never drops a bit.
fn liquidity_numerator(liquidity: u128) -> (r: U256)
    ensures
        r@ == liquidity as int * q96(),
        r@ < word_modulus(),
{
    proof {
        lemma_pow2_96();
        assert(liquidity as int * q96() < word_modulus());
        lemma_small_mod((liquidity as int * q96()) as nat, word_modulus() as nat);
    }
    shl(U256::from_u128(liquidity), 96)
}

/// `amount * 2^96` as a word, for an amount below 2^160.
fn shifted_amount(amount: U256) -> (r: U256)
    requires
        amount@ < two_pow_160(),
    ensures
        r@ == amount@ * q96(),
{
    proof {
        lemma_pow2_96();
        amount.lemma_bounds();
        assert(amount@ * q96() < word_modulus());
        lemma_small_mod((amount@ * q96()) as nat, word_modulus() as nat);
    }
    shl(amount, 96)
}

/// Returns the sqrt-price after `amount_in` is swapped in: token0 (price falls) when
/// `zero_for_one`, else token1 (price rises).
pub fn get_next_sqrt_price_from_input(
    sqrt_price: U256,
    liquidity: u128,
    amount_in: U256,
    zero_for_one: bool,
) -> (r: Result<U256, UniswapV3Error>)
    ensures
        result_value(r) == next_price_from_input_spec(
            sqrt_price@,
            liquidity as int,
            amount_in@,
            zero_for_one,
        ),
        sqrt_price@ == 0 ==> r == Err::<U256, UniswapV3Error>(UniswapV3Error::SqrtPriceIsZero),
{
    if sqrt_price.is_zero() {
        return Err(UniswapV3Error::SqrtPriceIsZero);
    } else if liquidity == 0 {
        return Err(UniswapV3Error::LiquidityIsZero);
    }
    if zero_for_one {
        get_next_sqrt_price_from_amount_0_rounding_up(sqrt_price, liquidity, amount_in, true)
    } else {
        get_next_sqrt_price_from_amount_1_rounding_down(sqrt_price, liquidity, amount_in, true)
    }
}

/// Returns the sqrt-price after `amount_out` is swapped out: token1 (price falls) when
/// `zero_for_one`, else token0 (price rises).
pub fn get_next_sqrt_price_from_output(
    sqrt_price: U256,
    liquidity: u128,
    amount_out: U256,
    zero_for_one: bool,
) -> (r: Result<U256, UniswapV3Error>)
    ensures
        result_value(r) == next_price_from_output_spec(
            sqrt_price@,
            liquidity as int,
            amount_out@,
            zero_for_one,
        ),
        sqrt_price@ == 0 ==> r == Err::<U256, UniswapV3Error>(UniswapV3Error::SqrtPriceIsZero),
{
    if sqrt_price.is_zero() {
        return Err(UniswapV3Error::SqrtPriceIsZero);
    } else if liquidity == 0 {
        return Err(UniswapV3Error::LiquidityIsZero);
    }
    if zero_for_one {
        get_next_sqrt_price_from_amount_1_rounding_down(sqrt_price, liquidity, amount_out, false)
    } else {
        get_next_sqrt_price_from_amount_0_rounding_up(sqrt_price, liquidity, amount_out, false)
    }
}

/// Returns the sqrt-price, rounded up, after `amount` of token0 is added to (`add`) or
/// taken from the pool; a zero amount leaves the price as it is.
pub fn get_next_sqrt_price_from_amount_0_rounding_up(
    sqrt_price_x_96: U256,
    liquidity: u128,
    amount: U256,
    add: bool,
) -> (r: Result<U256, UniswapV3Error>)
    ensures
        result_value(r) == next_price_from_amount_0_spec(
            sqrt_price_x_96@,
            liquidity as int,
            amount@,
            add,
        ),
        amount@ == 0 ==> r == Ok::<U256, UniswapV3Error>(sqrt_price_x_96),
{
    if amount.is_zero() {
        return Ok(sqrt_price_x_96);
    }
    let numerator_1 = liquidity_numerator(liquidity);
    if add {
        if let Some(product) = checked_mul(amount, sqrt_price_x_96) {
            if let Some(denominator) = checked_add(numerator_1, product) {
                return mul_div_rounding_up(numerator_1, sqrt_price_x_96, denominator);
            }
        }
        proof {
            if sqrt_price_x_96@ == 0 {
                assert(amount@ * sqrt_price_x_96@ == 0);
            }
        }
        let (quotient, _) = div_mod(numerator_1, sqrt_price_x_96);
        match checked_add(quotient, amount) {
            Some(denominator) => Ok(div_rounding_up(numerator_1, denominator)),
            None => Err(UniswapV3Error::Overflow),
        }
    } else {
        if let Some(product) = checked_mul(amount, sqrt_price_x_96) {
            if let Some(denominator) = checked_sub(numerator_1, product) {
                if !denominator.is_zero() {
                    return mul_div_rounding_up(numerator_1, sqrt_price_x_96, denominator);
                }
            }
        }
        Err(UniswapV3Error::ProductDivAmount)
    }
}

/// Returns the sqrt-price, rounded down, after `amount` of token1 is added to (`add`) or
/// taken from the pool.
pub fn get_next_sqrt_price_from_amount_1_rounding_down(
    sqrt_price_x_96: U256,
    liquidity: u128,
    amount: U256,
    add: bool,
) -> (r: Result<U256, UniswapV3Error>)
    ensures
        result_value(r) == next_price_from_amount_1_spec(
            sqrt_price_x_96@,
            liquidity as int,
            amount@,
            add,
        ),
{
    if liquidity == 0 {
        return Err(UniswapV3Error::DivisionByZero);
    }
    let liquidity_word = U256::from_u128(liquidity);
    proof {
        amount.lemma_bounds();
        sqrt_price_x_96.lemma_bounds();
        assert(amount@ * q96() >= 0);
        lemma_div_up(amount@ * q96(), liquidity as int);
    }
    if add {
        let quotient = if amount.fits_in_160_bits() {
            div_mod(shifted_amount(amount), liquidity_word).0
        } else {
            match mul_div(amount, U256::q96(), liquidity_word) {
                Ok(q) => q,
                Err(e) => return Err(e),
            }
        };
        match checked_add(sqrt_price_x_96, quotient) {
            Some(price) => Ok(price),
            None => Err(UniswapV3Error::Overflow),
        }
    } else {
        let quotient = if amount.fits_in_160_bits() {
            div_rounding_up(shifted_amount(amount), liquidity_word)
        } else {
            match mul_div_rounding_up(amount, U256::q96(), liquidity_word) {
                Ok(q) => q,
                Err(e) => return Err(e),
            }
        };
        match checked_sub(sqrt_price_x_96, quotient) {
            Some(price) => Ok(price),
            None => Err(UniswapV3Error::Overflow),
        }
    }
}

/// The smaller of two sqrt-prices.
pub open spec fn lower_of(a: int, b: int) -> int {
    if a < b {
        a
    } else {
        b
    }
}

/// The larger of two sqrt-prices.
pub open spec fn upper_of(a: int, b: int) -> int {
    if a < b {
        b
    } else {
        a
    }
}

/// The amount of token0 that `liquidity` spans between two sqrt-prices:
/// `liquidity * 2^96 * (upper - lower) / lower / upper`, with both divisions rounded up
/// (`round_up`) or down.
pub open spec fn amount_0_delta_spec(
    a: int,
    b: int,
    liquidity: int,
    round_up: bool,
) -> Result<int, UniswapV3Error> {
    let lower = lower_of(a, b);
    let upper = upper_of(a, b);
    let numerator_1 = liquidity * q96();
    let numerator_2 = upper - lower;
    if lower == 0 {
        Err(UniswapV3Error::SqrtPriceIsZero)
    } else if round_up {
        match mul_div_rounding_up_spec(numerator_1, numerator_2, lower) {
            Ok(partial) => Ok(div_up(partial, upper)),
            Err(e) => Err(e),
        }
    } else {
        match mul_div_spec(numerator_1, numerator_2, lower) {
            Ok(full) => Ok(full / upper),
            Err(e) => Err(e),
        }
    }
}

/// The amount of token1 that `liquidity` spans between two sqrt-prices:
/// `liquidity * (upper - lower) / 2^96`, rounded up (`round_up`) or down.
pub open spec fn amount_1_delta_spec(
    a: int,
    b: int,
    liquidity: int,
    round_up: bool,
) -> Result<int, UniswapV3Error> {
    let difference = upper_of(a, b) - lower_of(a, b);
    if round_up {
        mul_div_rounding_up_spec(liquidity, difference, q96())
    } else {
        mul_div_spec(liquidity, difference, q96())
    }
}

/// A magnitude carried over to a signed 256-bit amount, negated when `negative`;
/// a magnitude of 2^255 or more does not fit.
pub open spec fn signed_amount_spec(
    magnitude: Result<int, UniswapV3Error>,
    negative: bool,
) -> Result<int, UniswapV3Error> {
    match magnitude {
        Ok(m) => if m < two_pow_255() {
            Ok(
                if negative {
                    -m
                } else {
                    m
                },
            )
        } else {
            Err(UniswapV3Error::Overflow)
        },
        Err(e) => Err(e),
    }
}

/// The signed token0 amount for a signed liquidity delta: owed to the pool (rounded up)
/// when liquidity is added, owed by it (rounded down, negated) when removed.
pub open spec fn get_amount_0_delta_spec(a: int, b: int, liquidity: int) -> Result<
    int,
    UniswapV3Error,
> {
    if liquidity < 0 {
        signed_amount_spec(amount_0_delta_spec(a, b, -liquidity, false), true)
    } else {
        signed_amount_spec(amount_0_delta_spec(a, b, liquidity, true), false)
    }
}

/// The signed token1 amount for a signed liquidity delta, rounded as for token0.
pub open spec fn get_amount_1_delta_spec(a: int, b: int, liquidity: int) -> Result<
    int,
    UniswapV3Error,
> {
    if liquidity < 0 {
        signed_amount_spec(amount_1_delta_spec(a, b, -liquidity, false), true)
    } else {
        signed_amount_spec(amount_1_delta_spec(a, b, liquidity, true), false)
    }
}

/// The value that a signed computation yields, or its error.
pub open spec fn signed_result_value(r: Result<I256, UniswapV3Error>) -> Result<
    int,
    UniswapV3Error,
> {
    match r {
        Ok(v) => Ok(v@),
        Err(e) => Err(e),
    }
}

/// The two sqrt-prices in order, with their difference.
fn order_prices(a: U256, b: U256) -> (r: (U256, U256, U256))
    ensures
        r.0@ == upper_of(a@, b@),
        r.1@ == lower_of(a@, b@),
        r.2@ == upper_of(a@, b@) - lower_of(a@, b@),
{
    match checked_sub(a, b) {
        Some(difference) => (a, b, difference),
        None => (b, a, sub_exact(b, a)),
    }
}

/// Returns the amount of token0 that `liquidity` spans between two sqrt-prices, in
/// either order, rounded up or down.
pub fn _get_amount_0_delta(
    sqrt_ratio_a_x_96: U256,
    sqrt_ratio_b_x_96: U256,
    liquidity: u128,
    round_up: bool,
) -> (r: Result<U256, UniswapV3Error>)
    ensures
        result_value(r) == amount_0_delta_spec(
            sqrt_ratio_a_x_96@,
            sqrt_ratio_b_x_96@,
            liquidity as int,
            round_up,
        ),
{
    let (upper, lower, numerator_2) = order_prices(sqrt_ratio_a_x_96, sqrt_ratio_b_x_96);
    if lower.is_zero() {
        return Err(UniswapV3Error::SqrtPriceIsZero);
    }
    let numerator_1 = liquidity_numerator(liquidity);
    if round_up {
        match mul_div_rounding_up(numerator_1, numerator_2, lower) {
            Ok(partial) => Ok(div_rounding_up(partial, upper)),
            Err(e) => Err(e),
        }
    } else {
        match mul_div(numerator_1, numerator_2, lower) {
            Ok(full) => Ok(div_mod(full, upper).0),
            Err(e) => Err(e),
        }
    }
}

/// Returns the amount of token1 that `liquidity` spans between two sqrt-prices, in
/// either order, rounded up or down.
pub fn _get_amount_1_delta(
    sqrt_ratio_a_x_96: U256,
    sqrt_ratio_b_x_96: U256,
    liquidity: u128,
    round_up: bool,
) -> (r: Result<U256, UniswapV3Error>)
    ensures
        result_value(r) == amount_1_delta_spec(
            sqrt_ratio_a_x_96@,
            sqrt_ratio_b_x_96@,
            liquidity as int,
            round_up,
        ),
{
    let (_, _, difference) = order_prices(sqrt_ratio_a_x_96, sqrt_ratio_b_x_96);
    if round_up {
        mul_div_rounding_up(U256::from_u128(liquidity), difference, U256::q96())
    } else {
        mul_div(U256::from_u128(liquidity), difference, U256::q96())
    }
}

/// The magnitude of a signed liquidity delta.
fn liquidity_magnitude(liquidity: i128) -> (r: u128)
    ensures
        r as int == if liquidity < 0 {
            -liquidity
        } else {
            liquidity as int
        },
{
    if liquidity < 0 {
        (-(liquidity + 1)) as u128 + 1
    } else {
        liquidity as u128
    }
}

/// Returns the signed token0 amount for a signed liquidity delta between two sqrt-prices.
pub fn get_amount_0_delta(
    sqrt_ratio_a_x_96: U256,
    sqrt_ratio_b_x_96: U256,
    liquidity: i128,
) -> (r: Result<I256, UniswapV3Error>)
    ensures
        signed_result_value(r) == get_amount_0_delta_spec(
            sqrt_ratio_a_x_96@,
            sqrt_ratio_b_x_96@,
            liquidity as int,
        ),
{
    let negative = liquidity < 0;
    let magnitude = liquidity_magnitude(liquidity);
    let amount = if negative {
        _get_amount_0_delta(sqrt_ratio_b_x_96, sqrt_ratio_a_x_96, magnitude, false)
    } else {
        _get_amount_0_delta(sqrt_ratio_a_x_96, sqrt_ratio_b_x_96, magnitude, true)
    };
    match amount {
        Ok(m) => match I256::from_magnitude(m, negative) {
            Some(v) => Ok(v),
            None => Err(UniswapV3Error::Overflow),
        },
        Err(e) => Err(e),
    }
}

/// Returns the signed token1 amount for a signed liquidity delta between two sqrt-prices.
pub fn get_amount_1_delta(
    sqrt_ratio_a_x_96: U256,
    sqrt_ratio_b_x_96: U256,
    liquidity: i128,
) -> (r: Result<I256, UniswapV3Error>)
    ensures
        signed_result_value(r) == get_amount_1_delta_spec(
            sqrt_ratio_a_x_96@,
            sqrt_ratio_b_x_96@,
            liquidity as int,
        ),
{
    let negative = liquidity < 0;
    let magnitude = liquidity_magnitude(liquidity);
    let amount = if negative {
        _get_amount_1_delta(sqrt_ratio_b_x_96, sqrt_ratio_a_x_96, magnitude, false)
    } else {
        _get_amount_1_delta(sqrt_ratio_a_x_96, sqrt_ratio_b_x_96, magnitude, true)
    };
    match amount {
        Ok(m) => match I256::from_magnitude(m, negative) {
            Some(v) => Ok(v),
            None => Err(UniswapV3Error::Overflow),
        },
        Err(e) => Err(e),
    }
}

/// Rounding token0 amounts up never gives less than rounding them down, and succeeds
/// only where rounding down succeeds.
pub proof fn lemma_amount_0_delta_round_up_covers(a: U256, b: U256, liquidity: u128)
    ensures
        match (
            amount_0_delta_spec(a@, b@, liquidity as int, true),
            amount_0_delta_spec(a@, b@, liquidity as int, false),
        ) {
            (Ok(up), Ok(down)) => up >= down,
            (Ok(_), Err(_)) => false,
            _ => true,
        },
{
    a.lemma_bounds();
    b.lemma_bounds();
    let lower = lower_of(a@, b@);
    let upper = upper_of(a@, b@);
    if lower != 0 {
        let n1 = liquidity as int * q96();
        let n2 = upper - lower;
        let x = n1 * n2;
        assert(x >= 0) by (nonlinear_arith)
            requires
                n1 >= 0,
                n2 >= 0,
                x == n1 * n2,
        ;
        lemma_div_up(x, lower);
        let partial = div_up(x, lower);
        lemma_div_up(partial, upper);
        lemma_div_is_ordered(x / lower, partial, upper);
    }
}

/// Swapping `amount` of token1 in and then the same amount of token1 out comes back to
/// the starting sqrt-price or to one below it: both roundings favour the pool.
pub proof fn lemma_token1_round_trip(price: U256, liquidity: u128, amount: U256)
    ensures
        match next_price_from_input_spec(price@, liquidity as int, amount@, false) {
            Ok(mid) => match next_price_from_output_spec(mid, liquidity as int, amount@, true) {
                Ok(back) => back == price@ || back == price@ - 1,
                Err(_) => false,
            },
            Err(_) => true,
        },
{
    price.lemma_bounds();
    amount.lemma_bounds();
    if price@ != 0 && liquidity != 0 {
        assert(amount@ * q96() >= 0);
        lemma_div_up(amount@ * q96(), liquidity as int);
    }
}

/// Adding more token0 never gives a higher sqrt-price.
proof fn lemma_amount_0_add_monotonic(price: int, liquidity: int, small: int, large: int)
    requires
        0 < price < word_modulus(),
        0 < liquidity,
        liquidity * q96() < word_modulus(),
        0 <= small <= large,
    ensures
        match (
            next_price_from_amount_0_spec(price, liquidity, small, true),
            next_price_from_amount_0_spec(price, liquidity, large, true),
        ) {
            (Ok(p_small), Ok(p_large)) => p_large <= p_small,
            _ => true,
        },
{
    let n = liquidity * q96();
    let q = n / price;
    lemma_fundamental_div_mod(n, price);
    lemma_div_up(n, price);
    assert(q * price <= n < (q + 1) * price) by (nonlinear_arith)
        requires
            n == price * q + n % price,
            0 <= n % price < price,
    ;
    let prod_small = small * price;
    let prod_large = large * price;
    assert(0 <= prod_small <= prod_large) by (nonlinear_arith)
        requires
            0 <= small <= large,
            price > 0,
            prod_small == small * price,
            prod_large == large * price,
    ;
    assert(n * price >= 0) by (nonlinear_arith)
        requires
            n >= 0,
            price >= 0,
    ;
    let first_small = prod_small < word_modulus() && n + prod_small < word_modulus();
    let first_large = prod_large < word_modulus() && n + prod_large < word_modulus();
    if small == 0 {
        if large > 0 {
            if first_large {
                assert(price * (n + prod_large) >= n * price) by (nonlinear_arith)
                    requires
                        prod_large >= 0,
                        price > 0,
                        n >= 0,
                ;
                lemma_div_up_least(n * price, n + prod_large, price);
            } else {
                assert(price * (q + large) > n) by (nonlinear_arith)
                    requires
                        n < (q + 1) * price,
                        large >= 1,
                        price > 0,
                ;
                lemma_div_up_least(n, q + large, price);
            }
        }
    } else {
        if first_small {
            let d_small = n + prod_small;
            let c = div_up(n * price, d_small);
            lemma_div_up(n * price, d_small);
            if first_large {
                assert(c * (n + prod_large) >= n * price) by (nonlinear_arith)
                    requires
                        c * d_small >= n * price,
                        d_small <= n + prod_large,
                        c >= 0,
                ;
                lemma_div_up_least(n * price, n + prod_large, c);
            } else {
                assert(c * (q + large) >= n) by (nonlinear_arith)
                    requires
                        c * d_small >= n * price,
                        d_small == n + small * price,
                        n < (q + 1) * price,
                        small < large,
                        c >= 0,
                        price > 0,
                ;
                lemma_div_up_least(n, q + large, c);
            }
        } else {
            let c = div_up(n, q + small);
            lemma_div_up(n, q + small);
            assert(c * (q + large) >= n) by (nonlinear_arith)
                requires
                    c * (q + small) >= n,
                    small <= large,
                    c >= 0,
            ;
            lemma_div_up_least(n, q + large, c);
        }
    }
}

/// More input never moves the sqrt-price back: with token0 in (`zero_for_one`) the price
/// never rises as the amount grows, and with token1 in it never falls.
pub proof fn lemma_input_monotonic(
    price: U256,
    liquidity: u128,
    amount_small: U256,
    amount_large: U256,
    zero_for_one: bool,
)
    requires
        amount_small@ <= amount_large@,
    ensures
        match (
            next_price_from_input_spec(price@, liquidity as int, amount_small@, zero_for_one),
            next_price_from_input_spec(price@, liquidity as int, amount_large@, zero_for_one),
        ) {
            (Ok(p_small), Ok(p_large)) => if zero_for_one {
                p_large <= p_small
            } else {
                p_large >= p_small
            },
            _ => true,
        },
{
    price.lemma_bounds();
    amount_small.lemma_bounds();
    amount_large.lemma_bounds();
    if price@ != 0 && liquidity != 0 {
        if zero_for_one {
            assert(liquidity as int * q96() < word_modulus());
            lemma_amount_0_add_monotonic(price@, liquidity as int, amount_small@, amount_large@);
        } else {
            lemma_div_is_ordered(amount_small@ * q96(), amount_large@ * q96(), liquidity as int);
        }
    }
}

} // verus!
