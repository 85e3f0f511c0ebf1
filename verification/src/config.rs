//! The settings of the engine.

use vstd::prelude::*;
use crate::decimal::{Decimal, DecimalModel};

verus! {

/// The settings of the engine and the hints for its presentation.
#[derive(Clone, Copy, Debug)]
pub struct Config {
    /// How many levels a side of the depth snapshot is asked for.
    pub orderbook_initial_snapshot_depth: u16,
    /// Over how many best levels of each side the imbalance is taken.
    pub orderbook_imbalance_depth_levels: usize,
    /// For how many recent trades room is made at the start.
    pub recent_trades_starting_capacity: usize,
    /// For how many seconds a significant trade is kept.
    pub significant_trades_retention_secs: u64,
    /// From which share of the recent volume on a trade is significant.
    pub significant_trade_volume_pct: Decimal,
    /// The least number of recent trades for a trade to be judged.
    pub min_trades_for_significance: usize,
    /// After how many failed connection attempts in a row the engine gives
    /// up.
    pub max_reconnect_attempts: u32,
    /// The delay before the second connection attempt, in milliseconds.
    pub initial_backoff_ms: u64,
    /// The longest delay between two connection attempts, in milliseconds.
    pub max_backoff_ms: u64,
    /// After how many milliseconds without a message a stream counts as
    /// stalled.
    pub message_timeout_ms: u64,
    /// How many levels of each side are shown.
    pub orderbook_display_count: usize,
    /// How many recent trades are shown.
    pub recent_trades_display_count: usize,
    /// How many significant trades are shown.
    pub significant_trades_display_count: usize,
}

impl Config {
    /// The settings in use where none are given.
    pub open spec fn spec_default_matches(self) -> bool {
        &&& self.orderbook_initial_snapshot_depth == 1000
        &&& self.orderbook_imbalance_depth_levels == 10
        &&& self.recent_trades_starting_capacity == 1000
        &&& self.significant_trades_retention_secs == 120
        &&& self.significant_trade_volume_pct@ == DecimalModel { mantissa: 5, scale: 2 }
        &&& self.min_trades_for_significance == 50
        &&& self.max_reconnect_attempts == 10
        &&& self.initial_backoff_ms == 100
        &&& self.max_backoff_ms == 30000
        &&& self.message_timeout_ms == 30000
        &&& self.orderbook_display_count == 5
        &&& self.recent_trades_display_count == 15
        &&& self.significant_trades_display_count == 10
    }
}

impl Default for Config {
    fn default() -> (config: Self)
        ensures
            config.spec_default_matches(),
    {
        let share = match Decimal::from_parts(5, 2) {
            Some(share) => share,
            None => Decimal::zero(),
        };
        Self {
            orderbook_initial_snapshot_depth: 1000,
            orderbook_imbalance_depth_levels: 10,
            recent_trades_starting_capacity: 1000,
            significant_trades_retention_secs: 120,
            significant_trade_volume_pct: share,
            min_trades_for_significance: 50,
            max_reconnect_attempts: 10,
            initial_backoff_ms: 100,
            max_backoff_ms: 30000,
            message_timeout_ms: 30000,
            orderbook_display_count: 5,
            recent_trades_display_count: 15,
            significant_trades_display_count: 10,
        }
    }
}

} // verus!
