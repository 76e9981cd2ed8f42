//! The per-tick accounting record and the lookup made when the price crosses a tick.
use crate::uint::U256;
use std::collections::HashMap;
use vstd::prelude::*;

verus! {

/// What the pool records at one initialized tick.
#[derive(Clone, Copy, Debug, PartialEq, Eq)]
pub struct Tick {
    /// Total liquidity that references this tick.
    pub liquidity_gross: u128,
    /// Liquidity added when the price crosses this tick upward (removed when downward).
    pub liquidity_net: i128,
    /// Fee growth of token0 on the other side of this tick.
    pub fee_growth_outside_0_x_128: U256,
    /// Fee growth of token1 on the other side of this tick.
    pub fee_growth_outside_1_x_128: U256,
    /// Cumulative tick value on the other side of this tick.
    pub tick_cumulative_outside: U256,
    /// Seconds per unit of liquidity on the other side of this tick.
    pub seconds_per_liquidity_outside_x_128: U256,
    /// Seconds spent on the other side of this tick.
    pub seconds_outside: u32,
    /// Whether the tick has ever been touched.
    pub initialized: bool,
}

/// The net liquidity recorded at `tick`, or zero for a tick never initialized.
pub open spec fn cross_spec(ticks: Map<i32, Tick>, tick: i32) -> int {
    if ticks.contains_key(tick) {
        ticks[tick].liquidity_net as int
    } else {
        0
    }
}

/// Returns the net liquidity change on crossing `tick`: its `liquidity_net`, or 0 when
/// the mapping holds no record for it.
pub fn cross(tick_mapping: &HashMap<i32, Tick>, tick: i32) -> (r: i128)
    ensures
        r as int == cross_spec(tick_mapping@, tick),
{
    match tick_mapping.get(&tick) {
        Some(record) => record.liquidity_net,
        None => 0,
    }
}

/// Crossing any tick of an empty mapping yields zero; once a record with net liquidity
/// `n` stands at a tick, crossing that tick yields exactly `n`, whatever else is recorded.
pub proof fn lemma_cross_empty_and_inserted(ticks: Map<i32, Tick>, tick: i32, record: Tick)
    ensures
        cross_spec(Map::<i32, Tick>::empty(), tick) == 0,
        cross_spec(ticks.insert(tick, record), tick) == record.liquidity_net as int,
{
}

} // verus!
