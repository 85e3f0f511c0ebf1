//! Depth snapshots, depth updates and trades as the venue sends them.

use vstd::prelude::*;
use crate::decimal::Decimal;

verus! {

/// A full picture of the book, tagged with the update id it reflects.
/// Each level is a `[price, quantity]` pair of decimal strings.
#[derive(Debug, Clone)]
pub struct DepthSnapshot {
    pub last_update_id: u64,
    pub bids: Vec<[String; 2]>,
    pub asks: Vec<[String; 2]>,
}

/// An incremental set of level changes covering the update ids
/// `first_update_id ..= final_update_id`.
#[derive(Debug)]
pub struct DepthUpdate {
    pub event_time: u64,
    pub s: String,
    pub first_update_id: u64,
    pub final_update_id: u64,
    pub b: Vec<[String; 2]>,
    pub a: Vec<[String; 2]>,
}

/// The side that took liquidity in a trade.
#[derive(Clone, Copy, Debug, PartialEq, Eq, Structural)]
pub enum Side {
    Sell,
    Buy,
}

impl Side {
    /// The side in capital letters, as it is shown.
    pub fn label(&self) -> (label: &'static str)
        ensures
            label@ == match self {
                Side::Buy => "BUY"@,
                Side::Sell => "SELL"@,
            },
    {
        match self {
            Side::Buy => "BUY",
            Side::Sell => "SELL",
        }
    }
}

/// One trade of the venue's trade stream.
#[derive(Debug, Clone, Copy)]
pub struct Trade {
    pub event_time: u64,
    pub trade_id: u64,
    pub price: Decimal,
    pub quantity: Decimal,
    pub trade_time: u64,
    pub is_buyer_maker: bool,
}

impl Trade {
    /// The side that took liquidity: a trade whose buyer was the maker was
    /// a sell, any other a buy.
    pub fn side(&self) -> (side: Side)
        ensures
            side == if self.is_buyer_maker {
                Side::Sell
            } else {
                Side::Buy
            },
    {
        if self.is_buyer_maker {
            Side::Sell
        } else {
            Side::Buy
        }
    }
}

/// A message of the venue's streams, decoded.
#[derive(Debug)]
#[allow(inconsistent_fields)]
pub enum StreamMessage {
    DepthUpdate { data: DepthUpdate },
    Trade { data: Trade },
}

} // verus!
