use vstd::prelude::*;

verus! {

/// The ways in which a price or amount computation can fail.
#[derive(Clone, Copy, Debug, PartialEq, Eq, Structural)]
pub enum UniswapV3Error {
    /// A sqrt-price of zero was given where a positive price is required.
    SqrtPriceIsZero,
    /// A liquidity of zero was given where a positive liquidity is required.
    LiquidityIsZero,
    /// A multiply-divide was asked to divide by zero.
    DivisionByZero,
    /// The exact result does not fit in 256 bits (or would fall below zero).
    Overflow,
    /// Removing the requested amount of token0 would overflow or drive the price to zero.
    ProductDivAmount,
}

} // verus!
