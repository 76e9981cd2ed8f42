use std::collections::HashMap;
use uniswap_v3_math::error::UniswapV3Error;
use uniswap_v3_math::full_math::{div_rounding_up, mul_div, mul_div_rounding_up};
use uniswap_v3_math::sqrt_price_math::{
    _get_amount_0_delta, _get_amount_1_delta, get_amount_0_delta, get_amount_1_delta,
    get_next_sqrt_price_from_amount_0_rounding_up, get_next_sqrt_price_from_amount_1_rounding_down,
    get_next_sqrt_price_from_input, get_next_sqrt_price_from_output,
};
use uniswap_v3_math::tick::{cross, Tick};
use uniswap_v3_math::uint::{I256, U256};

fn word(s: &str) -> U256 {
    U256 { limbs: ethers::types::U256::from_dec_str(s).unwrap().0 }
}

fn small(x: u128) -> U256 {
    U256::from_u128(x)
}

fn pow2(bits: usize) -> U256 {
    U256 { limbs: (ethers::types::U256::one() << bits).0 }
}

fn max_word() -> U256 {
    U256 { limbs: ethers::types::U256::MAX.0 }
}

fn signed(s: &str) -> I256 {
    I256 { raw: U256 { limbs: ethers::types::I256::from_dec_str(s).unwrap().into_raw().0 } }
}

fn tick_with_net(net: i128) -> Tick {
    Tick {
        liquidity_gross: net.unsigned_abs(),
        liquidity_net: net,
        fee_growth_outside_0_x_128: small(0),
        fee_growth_outside_1_x_128: small(0),
        tick_cumulative_outside: small(0),
        seconds_per_liquidity_outside_x_128: small(0),
        seconds_outside: 0,
        initialized: true,
    }
}

#[test]
fn mul_div_floors_the_exact_quotient() {
    assert_eq!(mul_div(small(6), small(7), small(4)), Ok(small(10)));
    assert_eq!(mul_div(max_word(), max_word(), max_word()), Ok(max_word()));
    assert_eq!(mul_div(pow2(200), pow2(200), pow2(150)), Ok(pow2(250)));
}

#[test]
fn mul_div_rounding_up_ceils_the_exact_quotient() {
    assert_eq!(mul_div_rounding_up(small(6), small(7), small(4)), Ok(small(11)));
    assert_eq!(mul_div_rounding_up(small(6), small(8), small(4)), Ok(small(12)));
    assert_eq!(mul_div_rounding_up(pow2(200), pow2(200), pow2(150)), Ok(pow2(250)));
}

#[test]
fn mul_div_rejects_zero_denominator() {
    assert_eq!(mul_div(small(1), small(1), small(0)), Err(UniswapV3Error::DivisionByZero));
    assert_eq!(
        mul_div_rounding_up(small(1), small(1), small(0)),
        Err(UniswapV3Error::DivisionByZero)
    );
}

#[test]
fn mul_div_rejects_quotient_wider_than_a_word() {
    assert_eq!(mul_div(pow2(200), pow2(200), pow2(100)), Err(UniswapV3Error::Overflow));
    assert_eq!(
        mul_div_rounding_up(pow2(200), pow2(200), pow2(100)),
        Err(UniswapV3Error::Overflow)
    );
}

#[test]
fn mul_div_rounding_up_rejects_increment_past_the_top() {
    let b = word("96493407697763496186309154173906589877724987221367136699547986673260941366613");
    assert_eq!(mul_div(small(6), b, small(5)), Ok(max_word()));
    assert_eq!(mul_div_rounding_up(small(6), b, small(5)), Err(UniswapV3Error::Overflow));
}

#[test]
fn mul_div_rounding_up_within_one_of_mul_div() {
    let cases = [(small(10), small(10), small(3)), (pow2(130), small(12345), small(7)), (small(9), small(4), small(6))];
    for (a, b, d) in cases {
        let down = mul_div(a, b, d).unwrap();
        let up = mul_div_rounding_up(a, b, d).unwrap();
        let down_e = ethers::types::U256(down.limbs);
        let up_e = ethers::types::U256(up.limbs);
        assert!(down_e <= up_e);
        assert!(up_e <= down_e + 1);
    }
}

#[test]
fn div_rounding_up_ceils() {
    assert_eq!(div_rounding_up(small(7), small(2)), small(4));
    assert_eq!(div_rounding_up(small(6), small(3)), small(2));
    assert_eq!(div_rounding_up(small(0), small(5)), small(0));
    assert_eq!(div_rounding_up(max_word(), max_word()), small(1));
    let a = 1_000_001u128;
    let b = 1_000u128;
    let r = 1_001u128;
    assert_eq!(div_rounding_up(small(a), small(b)), small(r));
    assert!(r * b >= a);
    assert!((r - 1) * b < a);
}

#[test]
fn amount_0_zero_amount_keeps_price() {
    let price = word("123456789012345678901234567890");
    assert_eq!(get_next_sqrt_price_from_amount_0_rounding_up(price, 7, small(0), true), Ok(price));
    assert_eq!(get_next_sqrt_price_from_amount_0_rounding_up(price, 7, small(0), false), Ok(price));
}

#[test]
fn input_token0_at_price_one() {
    let r = get_next_sqrt_price_from_input(pow2(96), 1_000_000_000_000_000_000, small(1_000_000_000_000_000), true);
    assert_eq!(r, Ok(word("79149013500763574019524425911")));
}

#[test]
fn amount_0_add_falls_back_when_product_overflows() {
    let r = get_next_sqrt_price_from_amount_0_rounding_up(pow2(96), 1, pow2(200), true);
    assert_eq!(r, Ok(small(1)));
}

#[test]
fn amount_0_add_fallback_rejects_overflowing_denominator() {
    let r = get_next_sqrt_price_from_amount_0_rounding_up(small(1), u128::MAX, max_word(), true);
    assert_eq!(r, Err(UniswapV3Error::Overflow));
}

#[test]
fn amount_0_remove_rounds_up() {
    let r = get_next_sqrt_price_from_amount_0_rounding_up(pow2(96), 1_000_000_000_000_000_000, small(1_000_000_000_000_000), false);
    assert_eq!(r, Ok(word("79307469984248586179723674011")));
}

#[test]
fn amount_0_remove_too_much_is_rejected() {
    let r = get_next_sqrt_price_from_amount_0_rounding_up(pow2(96), 1_000, small(1_000), false);
    assert_eq!(r, Err(UniswapV3Error::ProductDivAmount));
    let r = get_next_sqrt_price_from_amount_0_rounding_up(pow2(96), 1, max_word(), false);
    assert_eq!(r, Err(UniswapV3Error::ProductDivAmount));
}

#[test]
fn amount_1_add_rounds_down() {
    let r = get_next_sqrt_price_from_amount_1_rounding_down(pow2(96), 1_000_000_000_000_000_000, small(1_000_000_000_000_000), true);
    assert_eq!(r, Ok(word("79307390676778601931137494286")));
}

#[test]
fn amount_1_add_wide_amount() {
    let r = get_next_sqrt_price_from_amount_1_rounding_down(pow2(96), 1u128 << 64, pow2(160), true);
    let expected = ethers::types::U256::one() << 192usize;
    let expected = expected + (ethers::types::U256::one() << 96usize);
    assert_eq!(r, Ok(U256 { limbs: expected.0 }));
}

#[test]
fn amount_1_add_overflow_is_rejected() {
    let r = get_next_sqrt_price_from_amount_1_rounding_down(pow2(96), 1, max_word(), true);
    assert_eq!(r, Err(UniswapV3Error::Overflow));
    let r = get_next_sqrt_price_from_amount_1_rounding_down(max_word(), 1, small(1), true);
    assert_eq!(r, Err(UniswapV3Error::Overflow));
}

#[test]
fn amount_1_remove_rounds_price_down() {
    let r = get_next_sqrt_price_from_amount_1_rounding_down(pow2(96), 1_000_000_000_000_000_000, small(1_000_000_000_000_000), false);
    assert_eq!(r, Ok(word("79148934351750073255950406385")));
}

#[test]
fn amount_1_remove_below_zero_is_rejected() {
    let r = get_next_sqrt_price_from_amount_1_rounding_down(small(5), 1, small(1), false);
    assert_eq!(r, Err(UniswapV3Error::Overflow));
}

#[test]
fn amount_1_zero_liquidity_is_rejected() {
    let r = get_next_sqrt_price_from_amount_1_rounding_down(pow2(96), 0, small(1), true);
    assert_eq!(r, Err(UniswapV3Error::DivisionByZero));
}

#[test]
fn zero_price_is_rejected_by_both_transitions() {
    for zero_for_one in [true, false] {
        for liquidity in [0u128, 1, u128::MAX] {
            assert_eq!(
                get_next_sqrt_price_from_input(small(0), liquidity, small(10), zero_for_one),
                Err(UniswapV3Error::SqrtPriceIsZero)
            );
            assert_eq!(
                get_next_sqrt_price_from_output(small(0), liquidity, small(10), zero_for_one),
                Err(UniswapV3Error::SqrtPriceIsZero)
            );
        }
    }
}

#[test]
fn zero_liquidity_is_rejected_by_both_transitions() {
    assert_eq!(get_next_sqrt_price_from_input(pow2(96), 0, small(10), true), Err(UniswapV3Error::LiquidityIsZero));
    assert_eq!(get_next_sqrt_price_from_output(pow2(96), 0, small(10), false), Err(UniswapV3Error::LiquidityIsZero));
}

#[test]
fn output_routes_by_direction() {
    let l = 1_000_000_000_000_000_000u128;
    let a = small(1_000_000_000_000_000);
    assert_eq!(get_next_sqrt_price_from_output(pow2(96), l, a, true), Ok(word("79148934351750073255950406385")));
    assert_eq!(get_next_sqrt_price_from_output(pow2(96), l, a, false), Ok(word("79307469984248586179723674011")));
    assert_eq!(get_next_sqrt_price_from_input(pow2(96), l, a, false), Ok(word("79307390676778601931137494286")));
}

#[test]
fn more_input_moves_price_further() {
    let l = 1_000_000_000_000_000_000u128;
    let smaller = get_next_sqrt_price_from_input(pow2(96), l, small(1_000_000_000_000_000), true).unwrap();
    let larger = get_next_sqrt_price_from_input(pow2(96), l, small(10_000_000_000_000_000), true).unwrap();
    assert_eq!(larger, word("78443725261647859003508861719"));
    assert!(ethers::types::U256(larger.limbs) <= ethers::types::U256(smaller.limbs));
    let smaller = get_next_sqrt_price_from_input(pow2(96), l, small(1_000_000_000_000_000), false).unwrap();
    let larger = get_next_sqrt_price_from_input(pow2(96), l, small(10_000_000_000_000_000), false).unwrap();
    assert!(ethers::types::U256(larger.limbs) >= ethers::types::U256(smaller.limbs));
}

#[test]
fn token1_in_then_out_returns_within_one() {
    let l = 1_000_000_000_000_000_000u128;
    let a = small(1_000_000_000_000_000);
    let mid = get_next_sqrt_price_from_input(pow2(96), l, a, false).unwrap();
    let back = get_next_sqrt_price_from_output(mid, l, a, true).unwrap();
    let expected = ethers::types::U256::one() << 96usize;
    assert_eq!(back, U256 { limbs: (expected - 1).0 });
}

#[test]
fn amount_0_delta_round_up_not_below_round_down() {
    let l = 1_000_000_000_000_000_001u128;
    let up = _get_amount_0_delta(pow2(96), pow2(97), l, true);
    let down = _get_amount_0_delta(pow2(97), pow2(96), l, false);
    assert_eq!(up, Ok(small(500_000_000_000_000_001)));
    assert_eq!(down, Ok(small(500_000_000_000_000_000)));
}

#[test]
fn amount_0_delta_zero_lower_price_is_rejected() {
    assert_eq!(_get_amount_0_delta(small(0), pow2(96), 1, true), Err(UniswapV3Error::SqrtPriceIsZero));
    assert_eq!(get_amount_0_delta(pow2(96), small(0), -1), Err(UniswapV3Error::SqrtPriceIsZero));
}

#[test]
fn amount_1_delta_rounds_both_ways() {
    let l = 3u128;
    assert_eq!(_get_amount_1_delta(small(1), pow2(95), l, true), Ok(small(2)));
    assert_eq!(_get_amount_1_delta(pow2(95), small(1), l, false), Ok(small(1)));
}

#[test]
fn signed_amount_0_delta_follows_liquidity_sign() {
    let l = 1_000_000_000_000_000_001i128;
    assert_eq!(get_amount_0_delta(pow2(96), pow2(97), l), Ok(signed("500000000000000001")));
    assert_eq!(get_amount_0_delta(pow2(96), pow2(97), -l), Ok(signed("-500000000000000000")));
}

#[test]
fn signed_amount_1_delta_follows_liquidity_sign() {
    let l = 1_000_000_000_000_000_000i128;
    assert_eq!(get_amount_1_delta(pow2(96), pow2(97), l), Ok(signed("1000000000000000000")));
    assert_eq!(get_amount_1_delta(pow2(97), pow2(96), -l), Ok(signed("-1000000000000000000")));
    assert_eq!(get_amount_1_delta(pow2(96), pow2(97), 0), Ok(signed("0")));
}

#[test]
fn signed_amount_delta_of_most_negative_liquidity() {
    let r = get_amount_1_delta(pow2(96), pow2(97), i128::MIN);
    assert_eq!(r, Ok(signed("-170141183460469231731687303715884105728")));
}

#[test]
fn signed_amount_delta_too_large_is_rejected() {
    let upper = U256 { limbs: ((ethers::types::U256::one() << 255usize) + 1).0 };
    assert_eq!(get_amount_1_delta(small(1), upper, 1i128 << 96), Err(UniswapV3Error::Overflow));
    assert_eq!(get_amount_1_delta(small(1), upper, -(1i128 << 96)), Err(UniswapV3Error::Overflow));
}

#[test]
fn cross_on_empty_mapping_is_zero() {
    let ticks: HashMap<i32, Tick> = HashMap::new();
    for index in [i32::MIN, -887272, 0, 60, 887272, i32::MAX] {
        assert_eq!(cross(&ticks, index), 0);
    }
}

#[test]
fn cross_returns_inserted_net_liquidity() {
    let mut ticks: HashMap<i32, Tick> = HashMap::new();
    ticks.insert(60, tick_with_net(-42));
    ticks.insert(-120, tick_with_net(1_000));
    assert_eq!(cross(&ticks, 60), -42);
    assert_eq!(cross(&ticks, -120), 1_000);
    assert_eq!(cross(&ticks, 0), 0);
}
