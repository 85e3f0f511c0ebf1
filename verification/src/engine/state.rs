//! The view of the market that the engine publishes.

use std::collections::VecDeque;
use vstd::prelude::*;
use crate::binance::types::Trade;
use crate::book::orderbook::{Level, OrderBook};
use crate::book::scaler::{amount_fits, amount_of, Scaler, ScalerModel};
use crate::decimal::{Decimal, DecimalModel};
use crate::engine::metrics::MarketMetrics;

verus! {

/// Why a trade was singled out.
#[derive(Clone, Copy, Debug)]
pub enum SignificanceReason {
    /// The trade made up this many percent of the recent volume.
    HighVolumePercent(Decimal),
}

/// A trade that was large against the recent volume.
#[derive(Clone, Copy, Debug)]
pub struct SignificantTrade {
    pub trade: Trade,
    /// Price times quantity, where that can be held.
    pub notional_value: Option<Decimal>,
    pub reason: SignificanceReason,
    /// The event time of the trade, in milliseconds.
    pub detected_at: u64,
}

/// A consistent picture of book, metrics and trade windows at one moment.
pub struct MarketSnapshot {
    pub book: OrderBook,
    pub metrics: MarketMetrics,
    pub recent_trades: VecDeque<Trade>,
    pub significant_trades: VecDeque<SignificantTrade>,
    pub is_syncing: bool,
}

/// A level with price and quantity as decimals.
pub type DecimalLevel = (Decimal, Decimal);

/// Whether price and quantity of `level` can both be held as decimals.
pub open spec fn level_fits(level: Level, scaler: ScalerModel) -> bool {
    amount_fits(level.0, scaler.tick_size) && amount_fits(level.1, scaler.step_size)
}

/// Price and quantity of `level` as decimals.
pub open spec fn level_amounts(level: Level, scaler: ScalerModel) -> (DecimalModel, DecimalModel) {
    (amount_of(level.0, scaler.tick_size), amount_of(level.1, scaler.step_size))
}

/// The levels of `levels` whose price and quantity can be held, as
/// decimals and in their order.
pub open spec fn decimal_levels(levels: Seq<Level>, scaler: ScalerModel) -> Seq<
    (DecimalModel, DecimalModel),
>
    decreases levels.len(),
{
    if levels.len() == 0 {
        Seq::empty()
    } else if level_fits(levels.last(), scaler) {
        decimal_levels(levels.drop_last(), scaler).push(level_amounts(levels.last(), scaler))
    } else {
        decimal_levels(levels.drop_last(), scaler)
    }
}

/// The views of decimal levels.
pub open spec fn level_views(levels: Seq<DecimalLevel>) -> Seq<(DecimalModel, DecimalModel)> {
    levels.map_values(|level: DecimalLevel| (level.0@, level.1@))
}

/// Converts levels in ticks to levels in decimals, leaving out what cannot
/// be held.
pub fn to_decimal_levels(levels: &Vec<Level>, scaler: &Scaler) -> (converted: Vec<DecimalLevel>)
    ensures
        level_views(converted@) == decimal_levels(levels@, scaler@),
{
    let mut converted: Vec<DecimalLevel> = Vec::new();
    let mut i: usize = 0;
    while i < levels.len()
        invariant
            i <= levels.len(),
            level_views(converted@) == decimal_levels(levels@.take(i as int), scaler@),
        decreases levels.len() - i,
    {
        proof {
            assert(levels@.take(i + 1).drop_last() =~= levels@.take(i as int));
        }
        let price = scaler.try_ticks_to_price(levels[i].0);
        let qty = scaler.try_ticks_to_qty(levels[i].1);
        let ghost before = converted@;
        match (price, qty) {
            (Some(price), Some(qty)) => {
                converted.push((price, qty));
                proof {
                    assert(level_views(converted@) =~= level_views(before).push(
                        (price@, qty@),
                    ));
                }
            },
            _ => {},
        }
        i = i + 1;
    }
    proof {
        assert(levels@.take(levels@.len() as int) =~= levels@);
    }
    converted
}

/// A copy of the window of recent trades.
pub(crate) fn copy_trades(trades: &VecDeque<Trade>) -> (copy: VecDeque<Trade>)
    ensures
        copy@ == trades@,
{
    let mut copy: VecDeque<Trade> = VecDeque::new();
    let mut i: usize = 0;
    while i < trades.len()
        invariant
            i <= trades.len(),
            copy@ == trades@.take(i as int),
        decreases trades.len() - i,
    {
        copy.push_back(trades[i]);
        i = i + 1;
        assert(copy@ =~= trades@.take(i as int));
    }
    assert(trades@.take(trades@.len() as int) =~= trades@);
    copy
}

/// A copy of the significant trades.
pub(crate) fn copy_entries(entries: &VecDeque<SignificantTrade>) -> (copy: VecDeque<SignificantTrade>)
    ensures
        copy@ == entries@,
{
    let mut copy: VecDeque<SignificantTrade> = VecDeque::new();
    let mut i: usize = 0;
    while i < entries.len()
        invariant
            i <= entries.len(),
            copy@ == entries@.take(i as int),
        decreases entries.len() - i,
    {
        copy.push_back(entries[i]);
        i = i + 1;
        assert(copy@ =~= entries@.take(i as int));
    }
    assert(entries@.take(entries@.len() as int) =~= entries@);
    copy
}

impl Clone for MarketSnapshot {
    fn clone(&self) -> (copy: Self)
        ensures
            copy.book@ == self.book@,
            copy.metrics == self.metrics,
            copy.recent_trades@ == self.recent_trades@,
            copy.significant_trades@ == self.significant_trades@,
            copy.is_syncing == self.is_syncing,
    {
        MarketSnapshot {
            book: self.book.clone(),
            metrics: self.metrics,
            recent_trades: copy_trades(&self.recent_trades),
            significant_trades: copy_entries(&self.significant_trades),
            is_syncing: self.is_syncing,
        }
    }
}

impl MarketSnapshot {
    /// The best `n` levels of each side as decimals, bids first: bids from
    /// the highest price down, asks from the lowest price up. A level whose
    /// price or quantity cannot be held as a decimal is left out.
    pub fn top_n_depth(&self, n: usize, scaler: &Scaler) -> (depth: (
        Vec<DecimalLevel>,
        Vec<DecimalLevel>,
    ))
        ensures
            level_views(depth.0@) == decimal_levels(self.book@.top_bids(n as nat), scaler@),
            level_views(depth.1@) == decimal_levels(self.book@.top_asks(n as nat), scaler@),
    {
        let (bids, asks) = self.book.top_n_depth(n);
        (to_decimal_levels(&bids, scaler), to_decimal_levels(&asks, scaler))
    }
}

} // verus!
