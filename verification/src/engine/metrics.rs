//! Market metrics over the book and over the window of recent trades.

use std::collections::VecDeque;
use vstd::prelude::*;
use crate::binance::types::Trade;
use crate::book::orderbook::{BookModel, ImbalanceRatio, OrderBook};
use crate::book::scaler::{amount_fits, amount_of, Scaler, ScalerModel};
use crate::decimal::{
    decimal_sum, product, quotient, view_of, whole_number, Decimal, DecimalModel,
};

verus! {

/// A share: `numerator` out of `denominator`.
#[derive(Clone, Copy, Debug, PartialEq, Eq, Structural)]
pub struct Ratio {
    pub numerator: u64,
    pub denominator: u64,
}

/// A rate of events: `updates` events in `elapsed_ms` milliseconds.
#[derive(Clone, Copy, Debug, PartialEq, Eq, Structural)]
pub struct UpdateRate {
    pub updates: u64,
    pub elapsed_ms: u64,
}

/// The metrics that the engine keeps up to date.
#[derive(Clone, Copy, Debug)]
pub struct MarketMetrics {
    /// Over how many best levels of each side the imbalance is taken.
    pub imbalance_depth_levels: usize,
    pub spread: Option<Decimal>,
    pub mid_price: Option<Decimal>,
    pub imbalance_ratio: Option<ImbalanceRatio>,
    pub last_price: Option<Decimal>,
    pub last_qty: Option<Decimal>,
    pub volume_1m: Option<Decimal>,
    pub trade_count_1m: u64,
    pub buy_ratio_1m: Option<Ratio>,
    pub vwap_1m: Option<Decimal>,
    pub total_trades: u64,
    pub updates_per_second: Option<UpdateRate>,
    pub orderbook_lag_ms: Option<u64>,
    pub orderbook_network_lag_ms: Option<u64>,
    pub trade_lag_ms: Option<u64>,
    pub trade_network_lag_ms: Option<u64>,
}

/// `a - b`, or zero where `b` is the larger.
pub open spec fn minus_or_zero(a: int, b: int) -> int {
    if a >= b {
        a - b
    } else {
        0
    }
}

/// The lag of an event: how long ago the venue timed it, and how much of
/// that went by before the message was received. Both are held at zero.
pub fn compute_latencies(event_time: u64, now_ms: u64, processing_ms: u64) -> (lags: (u64, u64))
    ensures
        lags.0 == minus_or_zero(now_ms as int, event_time as int),
        lags.1 == minus_or_zero(lags.0 as int, processing_ms as int),
{
    let total_lag_ms = now_ms.saturating_sub(event_time);
    let network_lag_ms = total_lag_ms.saturating_sub(processing_ms);
    (total_lag_ms, network_lag_ms)
}

/// The ticks of `count` as a decimal, where there is a count and the
/// amount can be held.
pub open spec fn amount_if_fits(count: Option<u64>, unit: DecimalModel) -> Option<DecimalModel> {
    match count {
        Some(count) => if amount_fits(count, unit) {
            Some(amount_of(count, unit))
        } else {
            None
        },
        None => None,
    }
}

/// The sum of the quantities of `trades`, added up from the first on:
/// `None` where a sum overflows.
pub open spec fn volume_of(trades: Seq<Trade>) -> Option<DecimalModel>
    decreases trades.len(),
{
    if trades.len() == 0 {
        Some(whole_number(0))
    } else {
        match volume_of(trades.drop_last()) {
            Some(volume) => decimal_sum(volume, trades.last().quantity@),
            None => None,
        }
    }
}

/// The sum of quantity times price over `trades`, added up from the first
/// on: `None` where a product or a sum overflows.
pub open spec fn notional_of(trades: Seq<Trade>) -> Option<DecimalModel>
    decreases trades.len(),
{
    if trades.len() == 0 {
        Some(whole_number(0))
    } else {
        match (
            notional_of(trades.drop_last()),
            product(trades.last().quantity@, trades.last().price@),
        ) {
            (Some(notional), Some(value)) => decimal_sum(notional, value),
            _ => None,
        }
    }
}

/// How many of `trades` were buys: trades whose buyer was not the maker.
pub open spec fn buys_in(trades: Seq<Trade>) -> nat
    decreases trades.len(),
{
    if trades.len() == 0 {
        0
    } else {
        buys_in(trades.drop_last()) + if trades.last().is_buyer_maker {
            0nat
        } else {
            1nat
        }
    }
}

/// The volume-weighted average price of `trades`: the notional over the
/// volume, where both can be held and the volume is above zero.
pub open spec fn vwap_of(trades: Seq<Trade>) -> Option<DecimalModel> {
    match (volume_of(trades), notional_of(trades)) {
        (Some(volume), Some(notional)) => if volume.mantissa > 0 {
            quotient(notional, volume)
        } else {
            None
        },
        _ => None,
    }
}

/// The share of buys among `trades`, where there are any.
pub open spec fn buy_ratio_of(trades: Seq<Trade>) -> Option<Ratio> {
    if trades.len() == 0 {
        None
    } else {
        Some(Ratio { numerator: buys_in(trades) as u64, denominator: trades.len() as u64 })
    }
}

/// The sum of the quantities of the trades in the window.
pub fn window_volume(trades: &VecDeque<Trade>) -> (volume: Option<Decimal>)
    ensures
        view_of(volume) == volume_of(trades@),
{
    let mut volume: Option<Decimal> = Some(Decimal::zero());
    let mut i: usize = 0;
    while i < trades.len()
        invariant
            i <= trades.len(),
            view_of(volume) == volume_of(trades@.take(i as int)),
        decreases trades.len() - i,
    {
        proof {
            assert(trades@.take(i + 1).drop_last() =~= trades@.take(i as int));
        }
        volume = match volume {
            Some(sum) => sum.checked_add(&trades[i].quantity),
            None => None,
        };
        i = i + 1;
    }
    proof {
        assert(trades@.take(trades@.len() as int) =~= trades@);
    }
    volume
}

/// The sum of quantity times price over the trades in the window.
pub fn window_notional(trades: &VecDeque<Trade>) -> (notional: Option<Decimal>)
    ensures
        view_of(notional) == notional_of(trades@),
{
    let mut notional: Option<Decimal> = Some(Decimal::zero());
    let mut i: usize = 0;
    while i < trades.len()
        invariant
            i <= trades.len(),
            view_of(notional) == notional_of(trades@.take(i as int)),
        decreases trades.len() - i,
    {
        proof {
            assert(trades@.take(i + 1).drop_last() =~= trades@.take(i as int));
        }
        let value = trades[i].quantity.checked_mul(&trades[i].price);
        notional = match (notional, value) {
            (Some(sum), Some(value)) => sum.checked_add(&value),
            _ => None,
        };
        i = i + 1;
    }
    proof {
        assert(trades@.take(trades@.len() as int) =~= trades@);
    }
    notional
}

/// How many trades in the window were buys.
pub fn window_buys(trades: &VecDeque<Trade>) -> (buys: usize)
    ensures
        buys == buys_in(trades@),
        buys <= trades@.len(),
{
    let mut buys: usize = 0;
    let mut i: usize = 0;
    while i < trades.len()
        invariant
            i <= trades.len(),
            buys == buys_in(trades@.take(i as int)),
            buys <= i,
        decreases trades.len() - i,
    {
        proof {
            assert(trades@.take(i + 1).drop_last() =~= trades@.take(i as int));
        }
        if !trades[i].is_buyer_maker {
            buys = buys + 1;
        }
        i = i + 1;
    }
    proof {
        assert(trades@.take(trades@.len() as int) =~= trades@);
    }
    buys
}

/// The volume-weighted average price of the window from its volume and its
/// notional: their quotient, where both are there and the volume is above
/// zero.
pub fn vwap_from(volume: &Option<Decimal>, notional: &Option<Decimal>) -> (vwap: Option<Decimal>)
    ensures
        view_of(vwap) == match (view_of(*volume), view_of(*notional)) {
            (Some(v), Some(n)) => if v.mantissa > 0 {
                quotient(n, v)
            } else {
                None
            },
            _ => None,
        },
{
    match (volume, notional) {
        (Some(v), Some(n)) => {
            if v.is_positive() {
                n.checked_div(v)
            } else {
                None
            }
        },
        _ => None,
    }
}

impl MarketMetrics {
    /// Whether nothing has been measured yet: the counts and the volume are
    /// zero and every other reading is absent.
    pub open spec fn nothing_measured(self, imbalance_depth_levels: usize) -> bool {
        &&& self.imbalance_depth_levels == imbalance_depth_levels
        &&& self.spread is None
        &&& self.mid_price is None
        &&& self.imbalance_ratio is None
        &&& self.last_price is None
        &&& self.last_qty is None
        &&& view_of(self.volume_1m) == Some(whole_number(0))
        &&& self.trade_count_1m == 0
        &&& self.buy_ratio_1m is None
        &&& self.vwap_1m is None
        &&& self.total_trades == 0
        &&& self.updates_per_second is None
        &&& self.orderbook_lag_ms is None
        &&& self.orderbook_network_lag_ms is None
        &&& self.trade_lag_ms is None
        &&& self.trade_network_lag_ms is None
    }

    /// Metrics with nothing measured yet.
    pub fn new(imbalance_depth_levels: usize) -> (metrics: Self)
        ensures
            metrics.nothing_measured(imbalance_depth_levels),
    {
        Self {
            imbalance_depth_levels,
            spread: None,
            mid_price: None,
            imbalance_ratio: None,
            last_price: None,
            last_qty: None,
            volume_1m: Some(Decimal::zero()),
            trade_count_1m: 0,
            buy_ratio_1m: None,
            vwap_1m: None,
            total_trades: 0,
            updates_per_second: None,
            orderbook_lag_ms: None,
            orderbook_network_lag_ms: None,
            trade_lag_ms: None,
            trade_network_lag_ms: None,
        }
    }

    /// Whether the trade metrics of `self` are those of `other`.
    pub open spec fn same_trade_metrics(self, other: MarketMetrics) -> bool {
        &&& self.last_price == other.last_price
        &&& self.last_qty == other.last_qty
        &&& self.volume_1m == other.volume_1m
        &&& self.trade_count_1m == other.trade_count_1m
        &&& self.buy_ratio_1m == other.buy_ratio_1m
        &&& self.vwap_1m == other.vwap_1m
        &&& self.total_trades == other.total_trades
        &&& self.trade_lag_ms == other.trade_lag_ms
        &&& self.trade_network_lag_ms == other.trade_network_lag_ms
    }

    /// Whether the book metrics of `self` are those of `other`.
    pub open spec fn same_book_metrics(self, other: MarketMetrics) -> bool {
        &&& self.spread == other.spread
        &&& self.mid_price == other.mid_price
        &&& self.imbalance_ratio == other.imbalance_ratio
        &&& self.orderbook_lag_ms == other.orderbook_lag_ms
        &&& self.orderbook_network_lag_ms == other.orderbook_network_lag_ms
    }

    /// Whether the book metrics are those of `book`, taken over `levels`
    /// best levels, for an event timed `event_time` that was received
    /// `processing_ms` before `now_ms`.
    pub open spec fn reflects_book(
        self,
        book: BookModel,
        scaler: ScalerModel,
        levels: nat,
        event_time: u64,
        now_ms: u64,
        processing_ms: u64,
    ) -> bool {
        &&& view_of(self.spread) == amount_if_fits(book.spread(), scaler.tick_size)
        &&& view_of(self.mid_price) == amount_if_fits(book.mid_price(), scaler.tick_size)
        &&& self.imbalance_ratio == book.imbalance(levels)
        &&& self.orderbook_lag_ms == Some(minus_or_zero(now_ms as int, event_time as int) as u64)
        &&& self.orderbook_network_lag_ms == Some(
            minus_or_zero(minus_or_zero(now_ms as int, event_time as int), processing_ms as int)
                as u64,
        )
    }

    /// Whether the trade metrics are those of the window `trades` and the
    /// running total `total_trades`, for an event timed `event_time` that
    /// was received `processing_ms` before `now_ms`.
    pub open spec fn reflects_trades(
        self,
        trades: Seq<Trade>,
        total_trades: u64,
        event_time: u64,
        now_ms: u64,
        processing_ms: u64,
    ) -> bool {
        &&& self.last_price == if trades.len() > 0 {
            Some(trades.last().price)
        } else {
            None
        }
        &&& self.last_qty == if trades.len() > 0 {
            Some(trades.last().quantity)
        } else {
            None
        }
        &&& self.trade_count_1m == trades.len()
        &&& view_of(self.volume_1m) == volume_of(trades)
        &&& view_of(self.vwap_1m) == vwap_of(trades)
        &&& self.buy_ratio_1m == buy_ratio_of(trades)
        &&& self.total_trades == total_trades
        &&& self.trade_lag_ms == Some(minus_or_zero(now_ms as int, event_time as int) as u64)
        &&& self.trade_network_lag_ms == Some(
            minus_or_zero(minus_or_zero(now_ms as int, event_time as int), processing_ms as int)
                as u64,
        )
    }

    /// Takes the book metrics anew from `book`: spread and mid price as
    /// decimals, the imbalance over the configured number of levels, and
    /// the lag of the event that led to the book.
    pub fn compute_book_metrics(
        &mut self,
        book: &OrderBook,
        scaler: &Scaler,
        event_time: u64,
        now_ms: u64,
        processing_ms: u64,
    )
        ensures
            final(self).reflects_book(
                book@,
                scaler@,
                old(self).imbalance_depth_levels as nat,
                event_time,
                now_ms,
                processing_ms,
            ),
            final(self).same_trade_metrics(*old(self)),
            final(self).imbalance_depth_levels == old(self).imbalance_depth_levels,
            final(self).updates_per_second == old(self).updates_per_second,
    {
        self.spread = match book.spread() {
            Some(ticks) => scaler.try_ticks_to_price(ticks),
            None => None,
        };
        self.mid_price = match book.mid_price() {
            Some(ticks) => scaler.try_ticks_to_price(ticks),
            None => None,
        };
        self.imbalance_ratio = book.imbalance_ratio(self.imbalance_depth_levels);
        let (total_lag, network_lag) = compute_latencies(event_time, now_ms, processing_ms);
        self.orderbook_lag_ms = Some(total_lag);
        self.orderbook_network_lag_ms = Some(network_lag);
    }

    /// Takes the trade metrics anew from the window of recent trades: the
    /// last price and quantity, the count, volume, share of buys and
    /// volume-weighted average price of the window, the running total of
    /// trades, and the lag of the trade event.
    pub fn compute_trade_metrics(
        &mut self,
        recent_trades: &VecDeque<Trade>,
        total_trades: u64,
        event_time: u64,
        now_ms: u64,
        processing_ms: u64,
    )
        ensures
            final(self).reflects_trades(
                recent_trades@,
                total_trades,
                event_time,
                now_ms,
                processing_ms,
            ),
            final(self).same_book_metrics(*old(self)),
            final(self).imbalance_depth_levels == old(self).imbalance_depth_levels,
            final(self).updates_per_second == old(self).updates_per_second,
    {
        let count = recent_trades.len();
        if count > 0 {
            self.last_price = Some(recent_trades[count - 1].price);
            self.last_qty = Some(recent_trades[count - 1].quantity);
        } else {
            self.last_price = None;
            self.last_qty = None;
        }
        self.trade_count_1m = count as u64;
        let volume = window_volume(recent_trades);
        let notional = window_notional(recent_trades);
        let buys = window_buys(recent_trades);
        self.buy_ratio_1m = if count > 0 {
            Some(Ratio { numerator: buys as u64, denominator: count as u64 })
        } else {
            None
        };
        self.vwap_1m = vwap_from(&volume, &notional);
        self.volume_1m = volume;
        self.total_trades = total_trades;
        let (total_lag, network_lag) = compute_latencies(event_time, now_ms, processing_ms);
        self.trade_lag_ms = Some(total_lag);
        self.trade_network_lag_ms = Some(network_lag);
    }

    /// Takes over the rate of updates measured last.
    pub fn update_performance_metrics(&mut self, updates_per_second: Option<UpdateRate>)
        ensures
            final(self).updates_per_second == updates_per_second,
            final(self).same_trade_metrics(*old(self)),
            final(self).same_book_metrics(*old(self)),
            final(self).imbalance_depth_levels == old(self).imbalance_depth_levels,
    {
        self.updates_per_second = updates_per_second;
    }
}

} // verus!
