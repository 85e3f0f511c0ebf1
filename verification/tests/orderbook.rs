use orderbook_engine::binance::types::{DepthSnapshot, DepthUpdate};
use orderbook_engine::book::orderbook::{ImbalanceRatio, OrderBook};
use orderbook_engine::book::scaler::{Alignment, Scaler};
use orderbook_engine::decimal::Decimal;

fn scaler() -> Scaler {
    Scaler::new(Decimal::parse("0.01").unwrap(), Decimal::parse("0.001").unwrap())
}

fn level(price: &str, qty: &str) -> [String; 2] {
    [price.to_string(), qty.to_string()]
}

fn snapshot(bids: &[(&str, &str)], asks: &[(&str, &str)]) -> DepthSnapshot {
    DepthSnapshot {
        last_update_id: 1,
        bids: bids.iter().map(|(p, q)| level(p, q)).collect(),
        asks: asks.iter().map(|(p, q)| level(p, q)).collect(),
    }
}

fn update(bids: &[(&str, &str)], asks: &[(&str, &str)]) -> DepthUpdate {
    DepthUpdate {
        event_time: 0,
        s: "BTCUSDT".to_string(),
        first_update_id: 2,
        final_update_id: 3,
        b: bids.iter().map(|(p, q)| level(p, q)).collect(),
        a: asks.iter().map(|(p, q)| level(p, q)).collect(),
    }
}

fn sample() -> OrderBook {
    OrderBook::from_snapshot(
        snapshot(
            &[("99.98", "3.000"), ("100.00", "1.000"), ("99.99", "2.000")],
            &[("100.03", "6.000"), ("100.01", "4.000"), ("100.02", "5.000")],
        ),
        &scaler(),
    )
}

#[test]
fn empty_book_has_no_best_levels() {
    let book = OrderBook::new();

    assert_eq!(book.best_bid(), None);
    assert_eq!(book.best_ask(), None);
    assert_eq!(book.spread(), None);
    assert_eq!(book.mid_price(), None);
    assert_eq!(book.imbalance_ratio(10), None);
    assert_eq!(book.top_n_depth(5), (vec![], vec![]));
}

#[test]
fn snapshot_fills_both_sides() {
    let book = sample();

    assert_eq!(book.best_bid(), Some((10_000, 1_000)));
    assert_eq!(book.best_ask(), Some((10_001, 4_000)));
    assert_eq!(book.spread(), Some(1));
    assert_eq!(book.mid_price(), Some(10_000));
}

#[test]
fn top_n_depth_lists_best_levels_first() {
    let book = sample();

    let (bids, asks) = book.top_n_depth(2);
    assert_eq!(bids, vec![(10_000, 1_000), (9_999, 2_000)]);
    assert_eq!(asks, vec![(10_001, 4_000), (10_002, 5_000)]);

    let (bids, asks) = book.top_n_depth(10);
    assert_eq!(bids, vec![(10_000, 1_000), (9_999, 2_000), (9_998, 3_000)]);
    assert_eq!(asks, vec![(10_001, 4_000), (10_002, 5_000), (10_003, 6_000)]);

    assert_eq!(book.top_n_depth(0), (vec![], vec![]));
}

#[test]
fn imbalance_ratio_sums_the_best_levels() {
    let book = sample();

    assert_eq!(
        book.imbalance_ratio(10),
        Some(ImbalanceRatio { bid_volume: 6_000, ask_volume: 15_000 })
    );
    assert_eq!(
        book.imbalance_ratio(1),
        Some(ImbalanceRatio { bid_volume: 1_000, ask_volume: 4_000 })
    );
    assert_eq!(book.imbalance_ratio(0), None);
}

#[test]
fn imbalance_ratio_lies_between_zero_and_one() {
    let book = sample();
    for n in 0..5 {
        if let Some(r) = book.imbalance_ratio(n) {
            let total = r.bid_volume + r.ask_volume;
            assert!(total > 0);
            assert!(r.bid_volume <= total);
        }
    }
}

#[test]
fn imbalance_needs_both_sides() {
    let book = OrderBook::from_snapshot(snapshot(&[("99.98", "3.000")], &[]), &scaler());

    assert_eq!(book.imbalance_ratio(10), None);
}

#[test]
fn update_overwrites_inserts_and_removes() {
    let mut book = sample();

    let complete = book.apply_update(
        &update(
            &[("100.00", "0"), ("99.99", "7.500"), ("99.97", "1.000")],
            &[("100.01", "0.000"), ("100.04", "2.000")],
        ),
        &scaler(),
    );

    assert!(complete);
    let (bids, asks) = book.top_n_depth(10);
    assert_eq!(bids, vec![(9_999, 7_500), (9_998, 3_000), (9_997, 1_000)]);
    assert_eq!(asks, vec![(10_002, 5_000), (10_003, 6_000), (10_004, 2_000)]);
}

#[test]
fn no_level_is_left_with_zero_quantity() {
    let mut book = sample();
    book.apply_update(&update(&[("99.98", "0.0004"), ("99.99", "0")], &[("100.02", "0")]), &scaler());
    book.apply_update(&update(&[("98.00", "0")], &[("100.01", "0.0001")]), &scaler());

    let (bids, asks) = book.top_n_depth(100);
    assert_eq!(bids, vec![(10_000, 1_000)]);
    assert_eq!(asks, vec![(10_003, 6_000)]);
    assert!(bids.iter().chain(asks.iter()).all(|(_, qty)| *qty != 0));
}

#[test]
fn later_level_of_one_update_wins() {
    let mut book = OrderBook::new();

    book.apply_update(&update(&[("1.00", "1"), ("1.00", "2"), ("2.00", "3"), ("2.00", "0")], &[]), &scaler());

    assert_eq!(book.top_n_depth(10).0, vec![(100, 2_000)]);
}

#[test]
fn unreadable_levels_are_left_out() {
    let mut book = sample();

    let complete = book.apply_update(
        &update(&[("oops", "1.000"), ("99.50", "x"), ("99.00", "1.000")], &[("-1", "1")]),
        &scaler(),
    );

    assert!(!complete);
    assert_eq!(book.top_n_depth(10).0.len(), 4);
    assert_eq!(book.top_n_depth(10).0[3], (9_900, 1_000));
    assert_eq!(book.top_n_depth(10).1.len(), 3);
}

#[test]
fn snapshot_skips_unreadable_and_empty_levels() {
    let book = OrderBook::from_snapshot(
        snapshot(&[("1.00", "1"), ("bad", "1"), ("0.99", "0")], &[("1.01", ""), ("1.02", "2")]),
        &scaler(),
    );

    assert_eq!(book.top_n_depth(10), (vec![(100, 1_000)], vec![(102, 2_000)]));
}

#[test]
fn misaligned_price_is_rounded_in_the_book() {
    let mut book = OrderBook::new();

    book.apply_update(&update(&[("100.006", "1")], &[("100.015", "0.0015")]), &scaler());

    assert_eq!(book.best_bid(), Some((10_001, 1_000)));
    assert_eq!(book.best_ask(), Some((10_002, 2)));
}

#[test]
fn strict_scaler_skips_misaligned_levels() {
    let strict = Scaler::with_alignment(
        Decimal::parse("0.01").unwrap(),
        Decimal::parse("0.001").unwrap(),
        Alignment::Reject,
    );
    let mut book = OrderBook::new();

    let complete = book.apply_update(&update(&[("100.006", "1"), ("100.00", "1")], &[]), &strict);

    assert!(!complete);
    assert_eq!(book.top_n_depth(10).0, vec![(10_000, 1_000)]);
}

#[test]
fn crossed_book_does_not_overflow() {
    let mut book = OrderBook::new();
    book.set_bid(105, 1);
    book.set_ask(100, 1);

    assert_eq!(book.spread(), Some(0));
    assert_eq!(book.mid_price(), Some(102));
}

#[test]
fn mid_price_of_the_highest_prices_does_not_overflow() {
    let mut book = OrderBook::new();
    book.set_bid(u64::MAX - 1, 1);
    book.set_ask(u64::MAX, 1);

    assert_eq!(book.spread(), Some(1));
    assert_eq!(book.mid_price(), Some(u64::MAX - 1));
}

#[test]
fn set_level_with_zero_removes() {
    let mut book = OrderBook::new();
    book.set_bid(10, 5);
    book.set_bid(11, 6);
    book.set_ask(12, 7);
    book.set_bid(11, 0);
    book.set_ask(13, 0);

    assert_eq!(book.top_n_depth(10), (vec![(10, 5)], vec![(12, 7)]));
}

#[test]
fn clone_is_independent() {
    let mut book = sample();
    let copy = book.clone();
    book.set_bid(10_000, 0);

    assert_eq!(copy.best_bid(), Some((10_000, 1_000)));
    assert_eq!(book.best_bid(), Some((9_999, 2_000)));
}
