//! Fixed-point sqrt-price and liquidity arithmetic for a concentrated-liquidity
//! market maker, with every result stated exactly over unbounded integers.
pub mod error;
pub mod full_math;
pub mod sqrt_price_math;
pub mod tick;
pub mod uint;
