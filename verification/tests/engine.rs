use orderbook_engine::binance::types::{DepthSnapshot, DepthUpdate, Side, StreamMessage, Trade};
use orderbook_engine::book::scaler::Scaler;
use orderbook_engine::config::Config;
use orderbook_engine::decimal::Decimal;
use orderbook_engine::engine::engine::{
    calculate_backoff, decide_retry, detect_significant, evict_trades, judge_share, Clock,
    CommandOutcome, EngineCommand, MarketDataEngine, RetryDecision, StreamKind,
};
use orderbook_engine::engine::metrics::UpdateRate;
use orderbook_engine::engine::state::SignificanceReason;
use std::collections::VecDeque;

fn dec(text: &str) -> Decimal {
    Decimal::parse(text).unwrap()
}

fn scaler() -> Scaler {
    Scaler::new(dec("0.01"), dec("0.001"))
}

fn level(price: &str, qty: &str) -> [String; 2] {
    [price.to_string(), qty.to_string()]
}

fn snapshot(last_update_id: u64) -> DepthSnapshot {
    DepthSnapshot {
        last_update_id,
        bids: vec![level("100.00", "1.000"), level("99.99", "2.000")],
        asks: vec![level("100.02", "3.000"), level("100.03", "4.000")],
    }
}

fn depth(first: u64, last: u64, bids: &[(&str, &str)], asks: &[(&str, &str)]) -> DepthUpdate {
    DepthUpdate {
        event_time: 1_000,
        s: "BTCUSDT".to_string(),
        first_update_id: first,
        final_update_id: last,
        b: bids.iter().map(|(p, q)| level(p, q)).collect(),
        a: asks.iter().map(|(p, q)| level(p, q)).collect(),
    }
}

fn trade(id: u64, price: &str, qty: &str, time: u64, is_buyer_maker: bool) -> Trade {
    Trade {
        event_time: time,
        trade_id: id,
        price: dec(price),
        quantity: dec(qty),
        trade_time: time,
        is_buyer_maker,
    }
}

fn clock() -> Clock {
    Clock { now_ms: 1_500, processing_ms: 100, rate_window_ms: 10 }
}

fn engine() -> MarketDataEngine {
    MarketDataEngine::new("BTCUSDT".to_string(), snapshot(100), scaler(), &Config::default())
}

#[test]
fn new_engine_is_seeded_and_syncing() {
    let engine = engine();

    assert!(engine.is_syncing());
    assert_eq!(engine.symbol(), "BTCUSDT");
    assert_eq!(engine.sync_state().last_update_id(), Some(100));
    assert_eq!(engine.total_trades(), 0);
    let view = engine.snapshot();
    assert!(view.is_syncing);
    assert_eq!(view.book.best_bid(), Some((10_000, 1_000)));
    assert_eq!(view.book.best_ask(), Some((10_002, 3_000)));
    assert!(view.recent_trades.is_empty());
    assert!(view.significant_trades.is_empty());
}

#[test]
fn contiguous_update_is_applied_and_ends_syncing() {
    let mut engine = engine();

    let outcome = engine.handle_ws_depth_update(
        depth(101, 105, &[("100.01", "5.000")], &[("100.02", "0")]),
        clock(),
    );

    assert!(!outcome.request_snapshot);
    assert!(outcome.levels_complete);
    assert!(!outcome.rate_window_restarted);
    assert!(!engine.is_syncing());
    assert_eq!(engine.sync_state().last_update_id(), Some(105));
    let view = engine.snapshot();
    assert_eq!(view.book.best_bid(), Some((10_001, 5_000)));
    assert_eq!(view.book.best_ask(), Some((10_003, 4_000)));
    assert_eq!(view.metrics.spread, Some(dec("0.02")));
    assert_eq!(view.metrics.mid_price, Some(dec("100.02")));
    assert_eq!(view.metrics.orderbook_lag_ms, Some(500));
    assert_eq!(view.metrics.orderbook_network_lag_ms, Some(400));
    let ratio = view.metrics.imbalance_ratio.unwrap();
    assert_eq!((ratio.bid_volume, ratio.ask_volume), (8_000, 4_000));
}

#[test]
fn stale_update_changes_nothing_but_the_metrics() {
    let mut engine = engine();

    let outcome = engine.handle_ws_depth_update(depth(90, 99, &[("100.01", "5.000")], &[]), clock());

    assert!(!outcome.request_snapshot);
    assert!(engine.is_syncing());
    assert_eq!(engine.sync_state().last_update_id(), Some(100));
    assert_eq!(engine.snapshot().book.best_bid(), Some((10_000, 1_000)));
    assert_eq!(engine.metrics().spread, Some(dec("0.02")));
}

#[test]
fn gap_resets_the_synchroniser_and_asks_for_a_snapshot() {
    let mut engine = engine();
    engine.handle_ws_depth_update(depth(101, 102, &[], &[]), clock());
    assert!(!engine.is_syncing());

    let outcome = engine.handle_ws_depth_update(depth(105, 106, &[("100.01", "5.000")], &[]), clock());

    assert!(outcome.request_snapshot);
    assert!(engine.is_syncing());
    assert_eq!(engine.sync_state().last_update_id(), None);
    assert!(engine.sync_state().buffer().is_empty());
    assert_eq!(engine.snapshot().book.best_bid(), Some((10_000, 1_000)));
}

#[test]
fn updates_after_a_gap_are_buffered_until_the_new_snapshot() {
    let mut engine = engine();
    engine.handle_ws_depth_update(depth(105, 106, &[], &[]), clock());

    let outcome = engine.handle_ws_depth_update(depth(107, 108, &[("100.01", "5.000")], &[]), clock());
    assert!(!outcome.request_snapshot);
    assert_eq!(engine.sync_state().buffer().len(), 1);

    let reseeded = engine.handle_command(EngineCommand::NewSnapshot(snapshot(106)));
    assert_eq!(reseeded, CommandOutcome::Reseeded);
    assert!(engine.is_syncing());
    assert_eq!(engine.sync_state().last_update_id(), Some(106));
    assert_eq!(engine.sync_state().buffer().len(), 1);

    let outcome = engine.handle_ws_depth_update(depth(109, 110, &[("100.00", "0")], &[]), clock());
    assert!(!outcome.request_snapshot);
    assert!(!engine.is_syncing());
    assert_eq!(engine.sync_state().last_update_id(), Some(110));
    assert_eq!(engine.snapshot().book.top_n_depth(3).0, vec![(10_001, 5_000), (9_999, 2_000)]);
}

#[test]
fn commands_say_what_is_to_be_done() {
    let mut engine = engine();

    assert_eq!(engine.handle_command(EngineCommand::RequestSnapshot), CommandOutcome::FetchSnapshot);
    assert_eq!(engine.handle_command(EngineCommand::Shutdown), CommandOutcome::Shutdown);
    assert_eq!(engine.sync_state().last_update_id(), Some(100));
}

#[test]
fn new_snapshot_replaces_the_book() {
    let mut engine = engine();
    let fresh = DepthSnapshot {
        last_update_id: 500,
        bids: vec![level("50.00", "1.000")],
        asks: vec![level("51.00", "1.000")],
    };

    engine.handle_command(EngineCommand::NewSnapshot(fresh));

    assert_eq!(engine.snapshot().book.top_n_depth(10), (vec![(5_000, 1_000)], vec![(5_100, 1_000)]));
    assert_eq!(engine.sync_state().last_update_id(), Some(500));
}

#[test]
fn depth_stream_error_starts_over() {
    let mut engine = engine();
    engine.handle_ws_depth_update(depth(101, 102, &[], &[]), clock());

    assert!(engine.handle_stream_error(StreamKind::Depth));

    assert!(engine.is_syncing());
    assert_eq!(engine.sync_state().last_update_id(), None);
}

#[test]
fn trade_stream_error_keeps_the_synchroniser() {
    let mut engine = engine();
    engine.handle_ws_depth_update(depth(101, 102, &[], &[]), clock());

    assert!(!engine.handle_stream_error(StreamKind::Trade));

    assert!(engine.is_syncing());
    assert_eq!(engine.sync_state().last_update_id(), Some(102));
}

#[test]
fn significant_trade() {
    let mut engine = engine();
    for i in 0..9 {
        let outcome = engine.handle_ws_trade(trade(i, "100.00", "2", 10_000 + i, false), clock());
        // every one of the first trades is at least a ninth of the window
        assert!(outcome.significant.is_some());
    }
    assert_eq!(engine.metrics().volume_1m, Some(dec("18")));
    let before = engine.snapshot().significant_trades.len();

    let outcome = engine.handle_ws_trade(trade(9, "100.00", "2", 10_009, true), clock());

    assert_eq!(engine.metrics().volume_1m, Some(dec("20")));
    let entry = outcome.significant.unwrap();
    match entry.reason {
        SignificanceReason::HighVolumePercent(percent) => {
            assert_eq!(percent, dec("10.0"));
            let percent = percent.mantissa() as f64 / 10f64.powi(percent.scale() as i32);
            assert_eq!(percent, 10.0);
        }
    }
    assert_eq!(entry.notional_value, Some(dec("200")));
    assert_eq!(entry.detected_at, 10_009);
    assert_eq!(entry.trade.trade_id, 9);
    let view = engine.snapshot();
    assert_eq!(view.significant_trades.len(), before + 1);
    assert_eq!(view.significant_trades.back().unwrap().trade.trade_id, 9);
}

#[test]
fn small_trade_is_not_significant() {
    let mut engine = engine();
    engine.handle_ws_trade(trade(1, "100.00", "100", 10_000, false), clock());
    let before = engine.snapshot().significant_trades.len();

    let outcome = engine.handle_ws_trade(trade(2, "100.00", "1", 10_001, false), clock());

    assert!(outcome.significant.is_none());
    assert_eq!(engine.snapshot().significant_trades.len(), before);
}

#[test]
fn trade_at_the_threshold_is_significant() {
    let window: VecDeque<Trade> =
        vec![trade(1, "1", "19", 1, false), trade(2, "1", "1", 2, false)].into();

    let entry = detect_significant(&trade(2, "1", "1", 2, false), &window, &dec("0.05")).unwrap();

    match entry.reason {
        SignificanceReason::HighVolumePercent(percent) => assert_eq!(percent, dec("5")),
    }
    assert!(detect_significant(&trade(2, "1", "1", 2, false), &window, &dec("0.051")).is_none());
}

#[test]
fn nothing_is_significant_against_an_empty_volume() {
    let window: VecDeque<Trade> = vec![trade(1, "1", "0", 1, false)].into();

    assert!(detect_significant(&trade(1, "1", "0", 1, false), &window, &dec("0.05")).is_none());
    assert!(detect_significant(&trade(1, "1", "1", 1, false), &VecDeque::new(), &dec("0.05")).is_none());
}

#[test]
fn judge_share_gives_the_percentage() {
    assert_eq!(judge_share(&dec("0.1"), &dec("0.05")), Some(dec("10")));
    assert_eq!(judge_share(&dec("0.05"), &dec("0.05")), Some(dec("5")));
    assert_eq!(judge_share(&dec("0.049"), &dec("0.05")), None);
}

#[test]
fn significant_trades_are_kept_for_the_retention_time() {
    let mut config = Config::default();
    config.significant_trades_retention_secs = 1;
    let mut engine = MarketDataEngine::new("X".to_string(), snapshot(1), scaler(), &config);

    engine.handle_ws_trade(trade(1, "1", "1", 10_000, false), clock());
    engine.handle_ws_trade(trade(2, "1", "1", 10_900, false), clock());
    assert_eq!(engine.snapshot().significant_trades.len(), 2);

    engine.handle_ws_trade(trade(3, "1", "1", 11_001, false), clock());

    let view = engine.snapshot();
    let ids: Vec<u64> = view.significant_trades.iter().map(|e| e.trade.trade_id).collect();
    assert_eq!(ids, vec![2, 3]);
}

#[test]
fn recent_trades_older_than_a_minute_leave_the_window() {
    let mut engine = engine();
    engine.handle_ws_trade(trade(1, "100.00", "1", 1_000, false), clock());
    engine.handle_ws_trade(trade(2, "100.00", "1", 30_000, false), clock());
    engine.handle_ws_trade(trade(3, "100.00", "1", 61_000, false), clock());
    let ids: Vec<u64> = engine.snapshot().recent_trades.iter().map(|t| t.trade_id).collect();
    assert_eq!(ids, vec![1, 2, 3]);

    engine.handle_ws_trade(trade(4, "100.00", "1", 61_001, false), clock());

    let ids: Vec<u64> = engine.snapshot().recent_trades.iter().map(|t| t.trade_id).collect();
    assert_eq!(ids, vec![2, 3, 4]);
    assert_eq!(engine.total_trades(), 4);
    assert_eq!(engine.metrics().trade_count_1m, 3);
    assert_eq!(engine.metrics().total_trades, 4);
}

#[test]
fn eviction_stops_at_the_first_trade_inside_the_window() {
    let mut window: VecDeque<Trade> = vec![
        trade(1, "1", "1", 5, false),
        trade(2, "1", "1", 20, false),
        trade(3, "1", "1", 7, false),
    ]
    .into();

    evict_trades(&mut window, 10);

    let ids: Vec<u64> = window.iter().map(|t| t.trade_id).collect();
    assert_eq!(ids, vec![2, 3]);
}

#[test]
fn rate_of_updates_is_taken_once_a_second() {
    let mut engine = engine();
    let quick = Clock { now_ms: 0, processing_ms: 0, rate_window_ms: 400 };
    let late = Clock { now_ms: 0, processing_ms: 0, rate_window_ms: 1_250 };

    assert!(!engine.handle_ws_trade(trade(1, "1", "1", 1, false), quick).rate_window_restarted);
    assert!(!engine.handle_ws_depth_update(depth(1, 2, &[], &[]), quick).rate_window_restarted);
    assert_eq!(engine.metrics().updates_per_second, None);

    assert!(engine.handle_ws_trade(trade(2, "1", "1", 2, false), late).rate_window_restarted);

    assert_eq!(
        engine.metrics().updates_per_second,
        Some(UpdateRate { updates: 3, elapsed_ms: 1_250 })
    );
    assert!(engine.handle_ws_trade(trade(3, "1", "1", 3, false), late).rate_window_restarted);
    assert_eq!(
        engine.metrics().updates_per_second,
        Some(UpdateRate { updates: 1, elapsed_ms: 1_250 })
    );
}

#[test]
fn backoff_doubles_up_to_the_maximum() {
    let config = Config::default();

    assert_eq!(calculate_backoff(1, &config), 100);
    assert_eq!(calculate_backoff(2, &config), 200);
    assert_eq!(calculate_backoff(3, &config), 400);
    assert_eq!(calculate_backoff(9, &config), 25_600);
    assert_eq!(calculate_backoff(10, &config), 30_000);
    assert_eq!(calculate_backoff(64, &config), 30_000);
    assert_eq!(calculate_backoff(u32::MAX, &config), 30_000);
}

#[test]
fn backoff_with_a_large_initial_delay_does_not_overflow() {
    let mut config = Config::default();
    config.initial_backoff_ms = u64::MAX / 2 + 1;
    config.max_backoff_ms = u64::MAX;

    assert_eq!(calculate_backoff(1, &config), u64::MAX / 2 + 1);
    assert_eq!(calculate_backoff(2, &config), u64::MAX);

    config.initial_backoff_ms = 50_000;
    config.max_backoff_ms = 30_000;
    assert_eq!(calculate_backoff(1, &config), 30_000);

    config.initial_backoff_ms = 0;
    assert_eq!(calculate_backoff(40, &config), 0);
}

#[test]
fn retry_gives_up_after_the_allowed_attempts() {
    let config = Config::default();

    assert_eq!(decide_retry(1, &config), RetryDecision::RetryAfterMs(100));
    assert_eq!(decide_retry(9, &config), RetryDecision::RetryAfterMs(25_600));
    assert_eq!(decide_retry(10, &config), RetryDecision::GiveUp);
    assert_eq!(decide_retry(11, &config), RetryDecision::GiveUp);
}

#[test]
fn default_config_has_the_documented_values() {
    let config = Config::default();

    assert_eq!(config.orderbook_initial_snapshot_depth, 1000);
    assert_eq!(config.orderbook_imbalance_depth_levels, 10);
    assert_eq!(config.recent_trades_starting_capacity, 1000);
    assert_eq!(config.significant_trades_retention_secs, 120);
    assert_eq!(config.significant_trade_volume_pct, dec("0.05"));
    assert_eq!(config.min_trades_for_significance, 50);
    assert_eq!(config.max_reconnect_attempts, 10);
    assert_eq!(config.initial_backoff_ms, 100);
    assert_eq!(config.max_backoff_ms, 30000);
    assert_eq!(config.message_timeout_ms, 30000);
}

#[test]
fn trade_side_follows_the_maker_flag() {
    assert_eq!(trade(1, "1", "1", 1, true).side(), Side::Sell);
    assert_eq!(trade(1, "1", "1", 1, false).side(), Side::Buy);
    assert_eq!(Side::Buy.label(), "BUY");
    assert_eq!(Side::Sell.label(), "SELL");
}

#[test]
fn stream_messages_carry_their_data() {
    let message = StreamMessage::Trade { data: trade(7, "1", "1", 1, true) };
    match message {
        StreamMessage::Trade { data } => assert_eq!(data.trade_id, 7),
        StreamMessage::DepthUpdate { .. } => panic!("expected a trade"),
    }
    let message = StreamMessage::DepthUpdate { data: depth(1, 2, &[], &[]) };
    assert!(matches!(message, StreamMessage::DepthUpdate { data } if data.final_update_id == 2));
}
