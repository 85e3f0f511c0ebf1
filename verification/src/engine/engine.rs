//! The decisions of the engine: what each event does to the book, the
//! trade windows, the metrics and the syncing flag, and what has to be done
//! outside in answer to it.
//!
//! The engine here holds no connection and no clock. Whoever runs it reads
//! the streams, the command channel and the time, hands each event in, and
//! carries out what comes back: fetch a snapshot, publish the view, wait
//! before the next connection attempt, stop.

use std::collections::VecDeque;
use vstd::prelude::*;
use crate::binance::types::{DepthSnapshot, DepthUpdate, Trade};
use crate::book::orderbook::{BookModel, OrderBook};
use crate::book::scaler::{Scaler, ScalerModel};
use crate::book::sync::{next_state, outcome_of, OutcomeModel, SyncModel, SyncOutcome, SyncState};
use crate::config::Config;
use crate::decimal::{product, quotient, view_of, whole_number, Decimal, DecimalModel};
use crate::engine::metrics::{volume_of, window_volume, MarketMetrics, UpdateRate};
use crate::engine::state::{
    copy_entries, copy_trades, MarketSnapshot, SignificanceReason, SignificantTrade,
};

verus! {

/// For how many milliseconds behind the latest trade a trade stays in the
/// window of recent trades.
pub const RECENT_TRADES_WINDOW_MS: u64 = 60_000;

/// From how many milliseconds on the rate of updates is taken anew.
pub const RATE_WINDOW_MS: u64 = 1_000;

/// What the engine is told over its command channel.
#[derive(Debug)]
pub enum EngineCommand {
    /// A fetched snapshot to seed book and synchroniser with.
    NewSnapshot(DepthSnapshot),
    /// A snapshot is to be fetched.
    RequestSnapshot,
    /// The engine is to stop.
    Shutdown,
}

/// What a command asks of whoever runs the engine.
#[derive(Clone, Copy, Debug, PartialEq, Eq, Structural)]
pub enum CommandOutcome {
    /// The book was seeded anew: publish the view.
    Reseeded,
    /// Start fetching a snapshot.
    FetchSnapshot,
    /// Leave the loop.
    Shutdown,
}

/// One of the two streams of the engine.
#[derive(Clone, Copy, Debug, PartialEq, Eq, Structural)]
pub enum StreamKind {
    Depth,
    Trade,
}

/// What is to be done after a failed connection attempt.
#[derive(Clone, Copy, Debug, PartialEq, Eq, Structural)]
pub enum RetryDecision {
    /// Give up and report the last error.
    GiveUp,
    /// Try again after this many milliseconds.
    RetryAfterMs(u64),
}

/// The readings of the clocks for one event, taken by whoever runs the
/// engine.
#[derive(Clone, Copy, Debug)]
pub struct Clock {
    /// The wall clock, in milliseconds since the epoch.
    pub now_ms: u64,
    /// How long ago the message of the event was received, in milliseconds.
    pub processing_ms: u64,
    /// How long ago the rate of updates was last taken, in milliseconds.
    pub rate_window_ms: u64,
}

/// What a depth update led to.
#[derive(Clone, Copy, Debug, PartialEq, Eq, Structural)]
pub struct DepthOutcome {
    /// Update ids were missing: a snapshot has to be requested.
    pub request_snapshot: bool,
    /// Every level of every applied update could be read.
    pub levels_complete: bool,
    /// The rate of updates was taken anew: its window starts now.
    pub rate_window_restarted: bool,
}

/// What a trade led to.
#[derive(Clone, Copy, Debug)]
pub struct TradeOutcome {
    /// The entry made for the trade where it was significant.
    pub significant: Option<SignificantTrade>,
    /// The rate of updates was taken anew: its window starts now.
    pub rate_window_restarted: bool,
}

/// `a - b`, or zero where `b` is the larger.
pub open spec fn minus_held(a: u64, b: u64) -> u64 {
    if a >= b {
        (a - b) as u64
    } else {
        0
    }
}

/// `a * b`, or `u64::MAX` where that is smaller.
pub open spec fn times_held(a: u64, b: u64) -> u64 {
    if a * b <= u64::MAX {
        (a * b) as u64
    } else {
        u64::MAX
    }
}

/// `n + 1`, or `u64::MAX` where `n` is there already.
pub open spec fn next_count(n: u64) -> u64 {
    if n < u64::MAX {
        (n + 1) as u64
    } else {
        u64::MAX
    }
}

/// `2^n`.
pub open spec fn pow2(n: nat) -> int
    decreases n,
{
    if n == 0 {
        1
    } else {
        2 * pow2((n - 1) as nat)
    }
}

/// The delay before the connection attempt that follows the `attempt`-th
/// failure in a row: the initial delay doubled with each further failure,
/// at most the longest delay.
pub open spec fn backoff_ms(attempt: u32, initial_ms: u64, max_ms: u64) -> u64 {
    if initial_ms * pow2((attempt - 1) as nat) <= max_ms {
        (initial_ms * pow2((attempt - 1) as nat)) as u64
    } else {
        max_ms
    }
}

/// `trades` without the trades at its front that were made before
/// `cutoff`.
pub open spec fn evict_older(trades: Seq<Trade>, cutoff: u64) -> Seq<Trade>
    decreases trades.len(),
{
    if trades.len() > 0 && trades.first().trade_time < cutoff {
        evict_older(trades.drop_first(), cutoff)
    } else {
        trades
    }
}

/// `entries` without the entries at its front whose trades were made
/// before `cutoff`.
pub open spec fn evict_older_entries(entries: Seq<SignificantTrade>, cutoff: u64) -> Seq<
    SignificantTrade,
>
    decreases entries.len(),
{
    if entries.len() > 0 && entries.first().trade.trade_time < cutoff {
        evict_older_entries(entries.drop_first(), cutoff)
    } else {
        entries
    }
}

/// The share that `trade` has of the volume of `window`, where the volume
/// can be held and is above zero.
pub open spec fn share_of_volume(trade: Trade, window: Seq<Trade>) -> Option<DecimalModel> {
    match volume_of(window) {
        Some(volume) => if volume.mantissa > 0 {
            quotient(trade.quantity@, volume)
        } else {
            None
        },
        None => None,
    }
}

/// The percentage that a significant share stands for: a hundred times the
/// share, where the share is at least `threshold`.
pub open spec fn significant_percent(share: DecimalModel, threshold: DecimalModel) -> Option<
    DecimalModel,
> {
    if threshold.at_most(share) {
        product(whole_number(100), share)
    } else {
        None
    }
}

/// The percentage of the volume of `window` that makes `trade` significant,
/// `None` where it is not.
pub open spec fn significance(trade: Trade, window: Seq<Trade>, threshold: DecimalModel) -> Option<
    DecimalModel,
> {
    match share_of_volume(trade, window) {
        Some(share) => significant_percent(share, threshold),
        None => None,
    }
}

/// Whether `entry` is the entry made for `trade` at `percent` percent of
/// the recent volume.
pub open spec fn is_entry_for(entry: SignificantTrade, trade: Trade, percent: DecimalModel) -> bool {
    &&& entry.trade == trade
    &&& view_of(entry.notional_value) == product(trade.price@, trade.quantity@)
    &&& entry.reason matches SignificanceReason::HighVolumePercent(p) && p@ == percent
    &&& entry.detected_at == trade.event_time
}

/// The counter of updates and the rate after one more update, `window_ms`
/// after the rate was last taken.
pub open spec fn rate_after(counter: u64, rate: Option<UpdateRate>, window_ms: u64) -> (
    u64,
    Option<UpdateRate>,
) {
    if window_ms >= RATE_WINDOW_MS {
        (0, Some(UpdateRate { updates: next_count(counter), elapsed_ms: window_ms }))
    } else {
        (next_count(counter), rate)
    }
}

/// The delay before the connection attempt that follows the `attempt`-th
/// failure in a row.
pub fn calculate_backoff(attempt: u32, config: &Config) -> (delay_ms: u64)
    requires
        attempt >= 1,
    ensures
        delay_ms == backoff_ms(attempt, config.initial_backoff_ms, config.max_backoff_ms),
{
    let mut delay: u64 = config.initial_backoff_ms;
    let mut doubled: u32 = 1;
    if delay > config.max_backoff_ms {
        proof {
            lemma_pow2_at_least_one((attempt - 1) as nat);
            assert(config.initial_backoff_ms * pow2((attempt - 1) as nat)
                >= config.initial_backoff_ms) by (nonlinear_arith)
                requires
                    pow2((attempt - 1) as nat) >= 1,
            ;
        }
        return config.max_backoff_ms;
    }
    assert(config.initial_backoff_ms * pow2(0) == config.initial_backoff_ms) by {
        reveal_with_fuel(pow2, 1);
    }
    while doubled < attempt
        invariant
            1 <= doubled <= attempt,
            delay == config.initial_backoff_ms * pow2((doubled - 1) as nat),
            delay <= config.max_backoff_ms,
        decreases attempt - doubled,
    {
        proof {
            assert(pow2(doubled as nat) == 2 * pow2((doubled - 1) as nat));
            assert(config.initial_backoff_ms * (2 * pow2((doubled - 1) as nat)) == 2 * (
            config.initial_backoff_ms * pow2((doubled - 1) as nat))) by (nonlinear_arith);
        }
        if delay > config.max_backoff_ms / 2 {
            proof {
                lemma_pow2_monotone(doubled as nat, (attempt - 1) as nat);
                assert(config.initial_backoff_ms * pow2((attempt - 1) as nat)
                    >= config.initial_backoff_ms * pow2(doubled as nat)) by (nonlinear_arith)
                    requires
                        pow2((attempt - 1) as nat) >= pow2(doubled as nat),
                ;
            }
            return config.max_backoff_ms;
        }
        delay = delay * 2;
        doubled = doubled + 1;
    }
    delay
}

proof fn lemma_pow2_at_least_one(n: nat)
    ensures
        pow2(n) >= 1,
    decreases n,
{
    if n > 0 {
        lemma_pow2_at_least_one((n - 1) as nat);
    }
}

proof fn lemma_pow2_monotone(a: nat, b: nat)
    requires
        a <= b,
    ensures
        pow2(a) <= pow2(b),
    decreases b,
{
    lemma_pow2_at_least_one(a);
    if a < b {
        lemma_pow2_monotone(a, (b - 1) as nat);
    }
}

/// What is to be done after the `failures`-th failed connection attempt in
/// a row: give up once the allowed number of attempts is used up, else wait
/// for the backoff delay and try again.
pub fn decide_retry(failures: u32, config: &Config) -> (decision: RetryDecision)
    requires
        failures >= 1,
    ensures
        decision == if failures >= config.max_reconnect_attempts {
            RetryDecision::GiveUp
        } else {
            RetryDecision::RetryAfterMs(
                backoff_ms(failures, config.initial_backoff_ms, config.max_backoff_ms),
            )
        },
{
    if failures >= config.max_reconnect_attempts {
        RetryDecision::GiveUp
    } else {
        RetryDecision::RetryAfterMs(calculate_backoff(failures, config))
    }
}

/// The percentage that a share of the recent volume stands for where it
/// makes a trade significant.
pub fn judge_share(share: &Decimal, threshold: &Decimal) -> (percent: Option<Decimal>)
    ensures
        view_of(percent) == significant_percent(share@, threshold@),
{
    if threshold.le(share) {
        Decimal::from_u64(100).checked_mul(share)
    } else {
        None
    }
}

/// The entry for `trade` where it is significant against the window of
/// recent trades.
pub fn detect_significant(trade: &Trade, window: &VecDeque<Trade>, threshold: &Decimal) -> (entry:
    Option<SignificantTrade>)
    ensures
        entry is Some <==> significance(*trade, window@, threshold@) is Some,
        entry matches Some(e) ==> is_entry_for(
            e,
            *trade,
            significance(*trade, window@, threshold@)->0,
        ),
{
    let volume = match window_volume(window) {
        Some(volume) => volume,
        None => {
            return None;
        },
    };
    if !volume.is_positive() {
        return None;
    }
    let share = match trade.quantity.checked_div(&volume) {
        Some(share) => share,
        None => {
            return None;
        },
    };
    match judge_share(&share, threshold) {
        Some(percent) => Some(
            SignificantTrade {
                trade: *trade,
                notional_value: trade.price.checked_mul(&trade.quantity),
                reason: SignificanceReason::HighVolumePercent(percent),
                detected_at: trade.event_time,
            },
        ),
        None => None,
    }
}

/// Drops the trades at the front of `trades` that were made before
/// `cutoff`.
pub fn evict_trades(trades: &mut VecDeque<Trade>, cutoff: u64)
    ensures
        final(trades)@ == evict_older(old(trades)@, cutoff),
{
    while trades.len() > 0 && trades[0].trade_time < cutoff
        invariant
            evict_older(trades@, cutoff) == evict_older(old(trades)@, cutoff),
        decreases trades.len(),
    {
        proof {
            assert(trades@.subrange(1, trades@.len() as int) =~= trades@.drop_first());
        }
        let _oldest = trades.pop_front();
    }
}

/// Drops the entries at the front of `entries` whose trades were made
/// before `cutoff`.
pub fn evict_entries(entries: &mut VecDeque<SignificantTrade>, cutoff: u64)
    ensures
        final(entries)@ == evict_older_entries(old(entries)@, cutoff),
{
    while entries.len() > 0 && entries[0].trade.trade_time < cutoff
        invariant
            evict_older_entries(entries@, cutoff) == evict_older_entries(old(entries)@, cutoff),
        decreases entries.len(),
    {
        proof {
            assert(entries@.subrange(1, entries@.len() as int) =~= entries@.drop_first());
        }
        let _oldest = entries.pop_front();
    }
}

/// The state that the engine owns.
pub struct MarketDataEngine {
    sync_state: SyncState,
    book: OrderBook,
    scaler: Scaler,
    symbol: String,
    recent_trades: VecDeque<Trade>,
    significant_trades: VecDeque<SignificantTrade>,
    metrics: MarketMetrics,
    is_syncing: bool,
    config: Config,
    update_counter: u64,
    updates_per_second: Option<UpdateRate>,
    total_trades: u64,
}

/// The mathematical state of a [`MarketDataEngine`].
pub struct EngineModel {
    pub sync: SyncModel,
    pub book: BookModel,
    pub scaler: ScalerModel,
    pub symbol: Seq<char>,
    pub recent_trades: Seq<Trade>,
    pub significant_trades: Seq<SignificantTrade>,
    pub metrics: MarketMetrics,
    pub is_syncing: bool,
    pub config: Config,
    pub update_counter: u64,
    pub updates_per_second: Option<UpdateRate>,
    pub total_trades: u64,
}

impl View for MarketDataEngine {
    type V = EngineModel;

    closed spec fn view(&self) -> EngineModel {
        EngineModel {
            sync: self.sync_state@,
            book: self.book@,
            scaler: self.scaler@,
            symbol: self.symbol@,
            recent_trades: self.recent_trades@,
            significant_trades: self.significant_trades@,
            metrics: self.metrics,
            is_syncing: self.is_syncing,
            config: self.config,
            update_counter: self.update_counter,
            updates_per_second: self.updates_per_second,
            total_trades: self.total_trades,
        }
    }
}

impl EngineModel {
    /// The cutoff of the window of recent trades for a trade made at
    /// `trade_time`.
    pub open spec fn recent_cutoff(trade_time: u64) -> u64 {
        minus_held(trade_time, RECENT_TRADES_WINDOW_MS)
    }

    /// The cutoff of the significant trades for an event at `event_time`.
    pub open spec fn significant_cutoff(self, event_time: u64) -> u64 {
        minus_held(event_time, times_held(self.config.significant_trades_retention_secs, 1000))
    }

    /// The window of recent trades after `trade`.
    pub open spec fn recent_after(self, trade: Trade) -> Seq<Trade> {
        evict_older(self.recent_trades.push(trade), Self::recent_cutoff(trade.trade_time))
    }

    /// Whether what a trade leaves alone is as it was in `pre`: the
    /// synchroniser, the book, the scaler, the symbol, the syncing flag and
    /// the settings.
    pub open spec fn same_book_side(self, pre: EngineModel) -> bool {
        &&& self.sync == pre.sync
        &&& self.book == pre.book
        &&& self.scaler == pre.scaler
        &&& self.symbol == pre.symbol
        &&& self.is_syncing == pre.is_syncing
        &&& self.config == pre.config
    }

    /// Whether what a depth update leaves alone is as it was in `pre`: the
    /// scaler, the symbol, the trade windows, the count of trades and the
    /// settings.
    pub open spec fn same_trade_side(self, pre: EngineModel) -> bool {
        &&& self.scaler == pre.scaler
        &&& self.symbol == pre.symbol
        &&& self.recent_trades == pre.recent_trades
        &&& self.significant_trades == pre.significant_trades
        &&& self.total_trades == pre.total_trades
        &&& self.config == pre.config
    }
}

/// A synchroniser that knows no id and holds nothing.
pub open spec fn fresh_sync() -> SyncModel {
    SyncModel { last_update_id: None, buffer: Seq::empty() }
}

impl MarketDataEngine {
    /// An engine seeded with `initial_snapshot`: the synchroniser knows the
    /// snapshot's update id, the book is the snapshot's, the trade windows
    /// are empty, and the view counts as syncing.
    pub fn new(symbol: String, initial_snapshot: DepthSnapshot, scaler: Scaler, conf: &Config) -> (engine:
        Self)
        ensures
            engine@.sync == (SyncModel {
                last_update_id: Some(initial_snapshot.last_update_id),
                buffer: Seq::empty(),
            }),
            engine@.book == BookModel::of_snapshot(initial_snapshot, scaler@),
            engine@.scaler == scaler@,
            engine@.symbol == symbol@,
            engine@.recent_trades == Seq::<Trade>::empty(),
            engine@.significant_trades == Seq::<SignificantTrade>::empty(),
            engine@.is_syncing,
            engine@.config == *conf,
            engine@.update_counter == 0,
            engine@.updates_per_second is None,
            engine@.total_trades == 0,
            engine@.metrics.nothing_measured(conf.orderbook_imbalance_depth_levels),
    {
        let mut sync_state = SyncState::new();
        sync_state.set_last_update_id(initial_snapshot.last_update_id);
        let book = OrderBook::from_snapshot(initial_snapshot, &scaler);
        MarketDataEngine {
            sync_state,
            book,
            scaler,
            symbol,
            recent_trades: VecDeque::with_capacity(conf.recent_trades_starting_capacity),
            significant_trades: VecDeque::new(),
            metrics: MarketMetrics::new(conf.orderbook_imbalance_depth_levels),
            is_syncing: true,
            config: *conf,
            update_counter: 0,
            updates_per_second: None,
            total_trades: 0,
        }
    }

    /// The view to publish: copies of book, metrics and trade windows, and
    /// the syncing flag.
    pub fn snapshot(&self) -> (view: MarketSnapshot)
        ensures
            view.book@ == self@.book,
            view.metrics == self@.metrics,
            view.recent_trades@ == self@.recent_trades,
            view.significant_trades@ == self@.significant_trades,
            view.is_syncing == self@.is_syncing,
    {
        MarketSnapshot {
            book: self.book.clone(),
            metrics: self.metrics,
            recent_trades: copy_trades(&self.recent_trades),
            significant_trades: copy_entries(&self.significant_trades),
            is_syncing: self.is_syncing,
        }
    }

    /// Whether the view is not known to be current.
    pub fn is_syncing(&self) -> (syncing: bool)
        ensures
            syncing == self@.is_syncing,
    {
        self.is_syncing
    }

    /// The symbol the engine follows.
    pub fn symbol(&self) -> (symbol: &String)
        ensures
            symbol@ == self@.symbol,
    {
        &self.symbol
    }

    /// The scaler the engine converts with.
    pub fn scaler(&self) -> (scaler: &Scaler)
        ensures
            scaler@ == self@.scaler,
    {
        &self.scaler
    }

    /// The synchroniser of the depth stream.
    pub fn sync_state(&self) -> (sync: &SyncState)
        ensures
            sync@ == self@.sync,
    {
        &self.sync_state
    }

    /// The metrics as last computed.
    pub fn metrics(&self) -> (metrics: &MarketMetrics)
        ensures
            *metrics == self@.metrics,
    {
        &self.metrics
    }

    /// How many trades have come in since the start.
    pub fn total_trades(&self) -> (total: u64)
        ensures
            total == self@.total_trades,
    {
        self.total_trades
    }

    /// Counts one update. Once a second or more has gone by since the rate
    /// was last taken, the rate is taken anew and the count starts over.
    fn update_rate_counter(&mut self, window_ms: u64) -> (restarted: bool)
        ensures
            (final(self)@.update_counter, final(self)@.updates_per_second) == rate_after(
                old(self)@.update_counter,
                old(self)@.updates_per_second,
                window_ms,
            ),
            restarted == (window_ms >= RATE_WINDOW_MS),
            final(self)@.sync == old(self)@.sync,
            final(self)@.book == old(self)@.book,
            final(self)@.is_syncing == old(self)@.is_syncing,
            final(self)@.metrics == old(self)@.metrics,
            final(self)@.same_trade_side(old(self)@),
    {
        self.update_counter = self.update_counter.saturating_add(1);
        if window_ms >= RATE_WINDOW_MS {
            self.updates_per_second = Some(
                UpdateRate { updates: self.update_counter, elapsed_ms: window_ms },
            );
            self.update_counter = 0;
            true
        } else {
            false
        }
    }

    /// Takes in one trade: the trade joins the window of recent trades,
    /// trades made more than a minute before it leave the window, the trade
    /// is entered as significant where its share of the window's volume is
    /// at least the configured one, and the trade metrics are taken anew.
    pub fn handle_ws_trade(&mut self, trade: Trade, clock: Clock) -> (outcome: TradeOutcome)
        ensures
            final(self)@.same_book_side(old(self)@),
            final(self)@.total_trades == next_count(old(self)@.total_trades),
            (final(self)@.update_counter, final(self)@.updates_per_second) == rate_after(
                old(self)@.update_counter,
                old(self)@.updates_per_second,
                clock.rate_window_ms,
            ),
            outcome.rate_window_restarted == (clock.rate_window_ms >= RATE_WINDOW_MS),
            final(self)@.recent_trades == old(self)@.recent_after(trade),
            outcome.significant is Some <==> significance(
                trade,
                final(self)@.recent_trades,
                old(self)@.config.significant_trade_volume_pct@,
            ) is Some,
            outcome.significant matches Some(entry) ==> {
                &&& is_entry_for(
                    entry,
                    trade,
                    significance(
                        trade,
                        final(self)@.recent_trades,
                        old(self)@.config.significant_trade_volume_pct@,
                    )->0,
                )
                &&& final(self)@.significant_trades == evict_older_entries(
                    old(self)@.significant_trades.push(entry),
                    old(self)@.significant_cutoff(trade.event_time),
                )
            },
            outcome.significant is None ==> final(self)@.significant_trades
                == old(self)@.significant_trades,
            final(self)@.metrics.reflects_trades(
                final(self)@.recent_trades,
                final(self)@.total_trades,
                trade.trade_time,
                clock.now_ms,
                clock.processing_ms,
            ),
            final(self)@.metrics.same_book_metrics(old(self)@.metrics),
            final(self)@.metrics.updates_per_second == final(self)@.updates_per_second,
    {
        self.total_trades = self.total_trades.saturating_add(1);
        let rate_window_restarted = self.update_rate_counter(clock.rate_window_ms);

        let cutoff_time = trade.trade_time.saturating_sub(RECENT_TRADES_WINDOW_MS);
        self.recent_trades.push_back(trade);
        evict_trades(&mut self.recent_trades, cutoff_time);

        let significant = detect_significant(
            &trade,
            &self.recent_trades,
            &self.config.significant_trade_volume_pct,
        );
        if let Some(entry) = significant {
            let retention_ms = match self.config.significant_trades_retention_secs.checked_mul(
                1000,
            ) {
                Some(ms) => ms,
                None => u64::MAX,
            };
            let cutoff = trade.event_time.saturating_sub(retention_ms);
            self.significant_trades.push_back(entry);
            evict_entries(&mut self.significant_trades, cutoff);
        }
        self.metrics.compute_trade_metrics(
            &self.recent_trades,
            self.total_trades,
            trade.trade_time,
            clock.now_ms,
            clock.processing_ms,
        );
        self.metrics.update_performance_metrics(self.updates_per_second);
        TradeOutcome { significant, rate_window_restarted }
    }

    /// Applies a batch of updates to the book in order and says whether
    /// every level could be read.
    fn apply_batch(&mut self, updates: &Vec<DepthUpdate>) -> (complete: bool)
        ensures
            complete == BookModel::updates_readable(
                updates@,
                updates@.len() as int,
                old(self)@.scaler,
            ),
            final(self)@.book == old(self)@.book.after_updates(
                updates@,
                updates@.len() as int,
                old(self)@.scaler,
            ),
            final(self)@.sync == old(self)@.sync,
            final(self)@.is_syncing == old(self)@.is_syncing,
            final(self)@.metrics == old(self)@.metrics,
            final(self)@.update_counter == old(self)@.update_counter,
            final(self)@.updates_per_second == old(self)@.updates_per_second,
            final(self)@.same_trade_side(old(self)@),
    {
        let mut complete = true;
        let mut i: usize = 0;
        while i < updates.len()
            invariant
                i <= updates.len(),
                complete == BookModel::updates_readable(updates@, i as int, old(self)@.scaler),
                self@.book == old(self)@.book.after_updates(updates@, i as int, old(self)@.scaler),
                self@.sync == old(self)@.sync,
                self@.is_syncing == old(self)@.is_syncing,
                self@.metrics == old(self)@.metrics,
                self@.update_counter == old(self)@.update_counter,
                self@.updates_per_second == old(self)@.updates_per_second,
                self@.same_trade_side(old(self)@),
            decreases updates.len() - i,
        {
            let read = self.book.apply_update(&updates[i], &self.scaler);
            complete = complete && read;
            i = i + 1;
        }
        complete
    }

    /// Takes in one depth update. A batch that the synchroniser hands out
    /// is applied to the book in order and ends the syncing. A gap resets
    /// the synchroniser, starts the syncing and asks for a snapshot. The
    /// book metrics are taken anew in every case.
    pub fn handle_ws_depth_update(&mut self, update: DepthUpdate, clock: Clock) -> (outcome:
        DepthOutcome)
        ensures
            final(self)@.same_trade_side(old(self)@),
            (final(self)@.update_counter, final(self)@.updates_per_second) == rate_after(
                old(self)@.update_counter,
                old(self)@.updates_per_second,
                clock.rate_window_ms,
            ),
            outcome.rate_window_restarted == (clock.rate_window_ms >= RATE_WINDOW_MS),
            match outcome_of(old(self)@.sync, update) {
                OutcomeModel::Updates(batch) => {
                    &&& final(self)@.sync == next_state(old(self)@.sync, update)
                    &&& final(self)@.book == old(self)@.book.after_updates(
                        batch,
                        batch.len() as int,
                        old(self)@.scaler,
                    )
                    &&& !final(self)@.is_syncing
                    &&& !outcome.request_snapshot
                    &&& outcome.levels_complete == BookModel::updates_readable(
                        batch,
                        batch.len() as int,
                        old(self)@.scaler,
                    )
                },
                OutcomeModel::NoUpdates => {
                    &&& final(self)@.sync == next_state(old(self)@.sync, update)
                    &&& final(self)@.book == old(self)@.book
                    &&& final(self)@.is_syncing == old(self)@.is_syncing
                    &&& !outcome.request_snapshot
                    &&& outcome.levels_complete
                },
                OutcomeModel::Gap => {
                    &&& final(self)@.sync == fresh_sync()
                    &&& final(self)@.book == old(self)@.book
                    &&& final(self)@.is_syncing
                    &&& outcome.request_snapshot
                    &&& outcome.levels_complete
                },
            },
            final(self)@.metrics.reflects_book(
                final(self)@.book,
                final(self)@.scaler,
                old(self)@.metrics.imbalance_depth_levels as nat,
                update.event_time,
                clock.now_ms,
                clock.processing_ms,
            ),
            final(self)@.metrics.same_trade_metrics(old(self)@.metrics),
            final(self)@.metrics.updates_per_second == old(self)@.metrics.updates_per_second,
    {
        let rate_window_restarted = self.update_rate_counter(clock.rate_window_ms);
        let event_time = update.event_time;
        let mut request_snapshot = false;
        let mut levels_complete = true;
        match self.sync_state.process_delta(update) {
            SyncOutcome::Updates(updates) => {
                levels_complete = self.apply_batch(&updates);
                self.is_syncing = false;
            },
            SyncOutcome::GapBetweenUpdates => {
                request_snapshot = true;
                self.sync_state = SyncState::new();
                self.is_syncing = true;
            },
            SyncOutcome::NoUpdates => {},
        }
        self.metrics.compute_book_metrics(
            &self.book,
            &self.scaler,
            event_time,
            clock.now_ms,
            clock.processing_ms,
        );
        DepthOutcome { request_snapshot, levels_complete, rate_window_restarted }
    }

    /// Carries out a command. A new snapshot seeds the synchroniser with
    /// its update id and replaces the book; what was buffered stays to be
    /// judged with the next depth update, and the syncing flag stays as it
    /// is. The other commands change nothing and say what is to be done.
    pub fn handle_command(&mut self, cmd: EngineCommand) -> (outcome: CommandOutcome)
        ensures
            final(self)@.same_trade_side(old(self)@),
            final(self)@.is_syncing == old(self)@.is_syncing,
            final(self)@.metrics == old(self)@.metrics,
            final(self)@.update_counter == old(self)@.update_counter,
            final(self)@.updates_per_second == old(self)@.updates_per_second,
            match cmd {
                EngineCommand::NewSnapshot(snapshot) => {
                    &&& outcome == CommandOutcome::Reseeded
                    &&& final(self)@.sync == (SyncModel {
                        last_update_id: Some(snapshot.last_update_id),
                        buffer: old(self)@.sync.buffer,
                    })
                    &&& final(self)@.book == BookModel::of_snapshot(snapshot, old(self)@.scaler)
                },
                EngineCommand::RequestSnapshot => {
                    &&& outcome == CommandOutcome::FetchSnapshot
                    &&& final(self)@.sync == old(self)@.sync
                    &&& final(self)@.book == old(self)@.book
                },
                EngineCommand::Shutdown => {
                    &&& outcome == CommandOutcome::Shutdown
                    &&& final(self)@.sync == old(self)@.sync
                    &&& final(self)@.book == old(self)@.book
                },
            },
    {
        match cmd {
            EngineCommand::NewSnapshot(snapshot) => {
                self.sync_state.set_last_update_id(snapshot.last_update_id);
                self.book = OrderBook::from_snapshot(snapshot, &self.scaler);
                CommandOutcome::Reseeded
            },
            EngineCommand::RequestSnapshot => CommandOutcome::FetchSnapshot,
            EngineCommand::Shutdown => CommandOutcome::Shutdown,
        }
    }

    /// Takes note that reading a stream failed: the view counts as syncing
    /// until a batch of updates is applied again. Where it was the depth
    /// stream, the synchroniser starts afresh and a snapshot has to be
    /// fetched once the stream is connected again. Returns whether a
    /// snapshot is to be fetched.
    pub fn handle_stream_error(&mut self, stream: StreamKind) -> (fetch_snapshot: bool)
        ensures
            final(self)@.is_syncing,
            fetch_snapshot == (stream == StreamKind::Depth),
            final(self)@.sync == if stream == StreamKind::Depth {
                fresh_sync()
            } else {
                old(self)@.sync
            },
            final(self)@.book == old(self)@.book,
            final(self)@.metrics == old(self)@.metrics,
            final(self)@.update_counter == old(self)@.update_counter,
            final(self)@.updates_per_second == old(self)@.updates_per_second,
            final(self)@.same_trade_side(old(self)@),
    {
        self.is_syncing = true;
        match stream {
            StreamKind::Depth => {
                self.sync_state = SyncState::new();
                true
            },
            StreamKind::Trade => false,
        }
    }
}

} // verus!
