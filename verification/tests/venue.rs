use orderbook_engine::binance::exchange_info::{
    select_tick_and_step_sizes, ExchangeInfoError, Filter, SymbolInfo,
};
use orderbook_engine::binance::snapshot::api_error_message;
use orderbook_engine::binance::stream::classify_stream;
use orderbook_engine::binance::types::{DepthSnapshot, DepthUpdate};
use orderbook_engine::book::orderbook::OrderBook;
use orderbook_engine::book::scaler::Scaler;
use orderbook_engine::decimal::Decimal;
use orderbook_engine::engine::engine::StreamKind;

fn dec(text: &str) -> Decimal {
    Decimal::parse(text).unwrap()
}

fn filter(kind: &str, tick: Option<&str>, step: Option<&str>) -> Filter {
    Filter {
        filter_type: kind.to_string(),
        tick_size: tick.map(|t| t.to_string()),
        step_size: step.map(|s| s.to_string()),
    }
}

fn symbol(name: &str, filters: Vec<Filter>) -> SymbolInfo {
    SymbolInfo { symbol: name.to_string(), filters }
}

fn btc() -> SymbolInfo {
    symbol(
        "BTCUSDT",
        vec![
            filter("PRICE_FILTER", Some("0.01000000"), None),
            filter("LOT_SIZE", None, Some("0.00001000")),
            filter("NOTIONAL", None, None),
        ],
    )
}

#[test]
fn sizes_come_from_the_price_and_lot_size_rules() {
    let symbols = vec![symbol("ETHUSDT", vec![]), btc()];

    let (tick, step) = select_tick_and_step_sizes(&symbols, "BTCUSDT").unwrap();

    assert_eq!(tick, dec("0.01"));
    assert_eq!(step, dec("0.00001"));
    assert_eq!((tick.mantissa(), tick.scale()), (1_000_000, 8));
}

#[test]
fn symbol_is_found_whatever_its_case() {
    let symbols = vec![btc()];

    assert!(select_tick_and_step_sizes(&symbols, "btcusdt").is_ok());
    assert!(select_tick_and_step_sizes(&symbols, "BtcUsdt").is_ok());
}

#[test]
fn missing_symbol_is_reported() {
    let symbols = vec![btc()];

    assert_eq!(
        select_tick_and_step_sizes(&symbols, "ETHUSDT").unwrap_err(),
        ExchangeInfoError::SymbolNotFound
    );
    assert_eq!(
        select_tick_and_step_sizes(&vec![], "BTCUSDT").unwrap_err(),
        ExchangeInfoError::SymbolNotFound
    );
}

#[test]
fn missing_tick_size_is_reported() {
    let no_rule = vec![symbol("X", vec![filter("LOT_SIZE", None, Some("1"))])];
    let no_size = vec![symbol(
        "X",
        vec![filter("PRICE_FILTER", None, None), filter("PRICE_FILTER", Some("1"), None)],
    )];

    assert_eq!(
        select_tick_and_step_sizes(&no_rule, "X").unwrap_err(),
        ExchangeInfoError::TickSizeNotFound
    );
    assert_eq!(
        select_tick_and_step_sizes(&no_size, "X").unwrap_err(),
        ExchangeInfoError::TickSizeNotFound
    );
}

#[test]
fn missing_step_size_is_reported() {
    let no_rule = vec![symbol("X", vec![filter("PRICE_FILTER", Some("bad"), None)])];
    let no_size = vec![symbol(
        "X",
        vec![filter("PRICE_FILTER", Some("1"), None), filter("LOT_SIZE", Some("1"), None)],
    )];

    assert_eq!(
        select_tick_and_step_sizes(&no_rule, "X").unwrap_err(),
        ExchangeInfoError::StepSizeNotFound
    );
    assert_eq!(
        select_tick_and_step_sizes(&no_size, "X").unwrap_err(),
        ExchangeInfoError::StepSizeNotFound
    );
}

#[test]
fn sizes_that_are_no_numbers_are_reported() {
    let bad_tick = vec![symbol(
        "X",
        vec![filter("PRICE_FILTER", Some("one"), None), filter("LOT_SIZE", None, Some("two"))],
    )];
    let bad_step = vec![symbol(
        "X",
        vec![filter("PRICE_FILTER", Some("1"), None), filter("LOT_SIZE", None, Some("two"))],
    )];

    assert_eq!(
        select_tick_and_step_sizes(&bad_tick, "X").unwrap_err(),
        ExchangeInfoError::BadTickSize
    );
    assert_eq!(
        select_tick_and_step_sizes(&bad_step, "X").unwrap_err(),
        ExchangeInfoError::BadStepSize
    );
}

#[test]
fn rule_type_is_matched_exactly() {
    let symbols = vec![symbol(
        "X",
        vec![filter("price_filter", Some("1"), None), filter("LOT_SIZE", None, Some("1"))],
    )];

    assert_eq!(
        select_tick_and_step_sizes(&symbols, "X").unwrap_err(),
        ExchangeInfoError::TickSizeNotFound
    );
}

#[test]
fn first_symbol_of_the_name_is_taken() {
    let symbols = vec![
        symbol("x", vec![filter("PRICE_FILTER", Some("0.5"), None), filter("LOT_SIZE", None, Some("2"))]),
        symbol("X", vec![filter("PRICE_FILTER", Some("0.1"), None), filter("LOT_SIZE", None, Some("1"))]),
    ];

    let (tick, step) = select_tick_and_step_sizes(&symbols, "X").unwrap();

    assert_eq!((tick, step), (dec("0.5"), dec("2")));
}

#[test]
fn streams_are_told_apart_by_their_names() {
    assert_eq!(classify_stream("btcusdt@depth@100ms"), Some(StreamKind::Depth));
    assert_eq!(classify_stream("btcusdt@trade"), Some(StreamKind::Trade));
    assert_eq!(classify_stream("@trade"), Some(StreamKind::Trade));
    assert_eq!(classify_stream("btcusdt@depth"), None);
    assert_eq!(classify_stream("btcusdt@trade@100ms"), None);
    assert_eq!(classify_stream("btcusdt@kline_1m"), None);
    assert_eq!(classify_stream(""), None);
}

#[test]
fn api_error_is_taken_from_the_answer() {
    assert_eq!(api_error_message(false, None), None);
    assert_eq!(api_error_message(false, Some("ignored".to_string())), None);
    assert_eq!(
        api_error_message(true, Some("Invalid symbol.".to_string())),
        Some("Invalid symbol.".to_string())
    );
    assert_eq!(api_error_message(true, None), Some("Unknown error".to_string()));
}

#[test]
fn decimal_is_written_with_its_scale() {
    assert_eq!(dec("49999.90").to_text(), "49999.90");
    assert_eq!(Decimal::from_u64(7).to_text(), "7");
    assert_eq!(dec("-0.050").to_text(), "-0.050");
    assert_eq!(Decimal::from_parts(5, 3).unwrap().to_text(), "0.005");
}

#[test]
fn fake_snapshot_lists_levels_around_the_mid_price() {
    let snapshot = DepthSnapshot::fake_snapshot(3);

    assert_eq!(snapshot.last_update_id, 0);
    let bid_prices: Vec<&str> = snapshot.bids.iter().map(|l| l[0].as_str()).collect();
    let ask_prices: Vec<&str> = snapshot.asks.iter().map(|l| l[0].as_str()).collect();
    assert_eq!(bid_prices, vec!["49999.99", "49999.98", "49999.97"]);
    assert_eq!(ask_prices, vec!["50000.01", "50000.02", "50000.03"]);
    for level in snapshot.bids.iter().chain(snapshot.asks.iter()) {
        let qty: u64 = level[1].parse().unwrap();
        assert!((1..100).contains(&qty));
    }
}

#[test]
fn fake_snapshot_of_no_levels_is_empty() {
    let snapshot = DepthSnapshot::fake_snapshot(0);

    assert!(snapshot.bids.is_empty());
    assert!(snapshot.asks.is_empty());
}

#[test]
fn fake_snapshot_builds_an_uncrossed_book() {
    let scaler = Scaler::new(dec("0.01"), dec("0.01"));

    let book = OrderBook::from_snapshot(DepthSnapshot::fake_snapshot(50), &scaler);

    let (bids, asks) = book.top_n_depth(100);
    assert_eq!(bids.len(), 50);
    assert_eq!(asks.len(), 50);
    assert_eq!(book.best_bid().unwrap().0, 4_999_999);
    assert_eq!(book.best_ask().unwrap().0, 5_000_001);
    assert_eq!(book.spread(), Some(2));
}

#[test]
fn fake_update_follows_the_given_id() {
    let update = DepthUpdate::fake_update(10, 200);

    assert_eq!(update.event_time, 0);
    assert_eq!(update.s, "FAKE");
    assert_eq!(update.first_update_id, 11);
    assert_eq!(update.final_update_id, 209);
    assert_eq!(update.b.len() + update.a.len(), 200);
    for level in update.b.iter() {
        let price = dec(&level[0]);
        assert!(dec("49950.01").le(&price) && price.le(&dec("49999.99")));
    }
    for level in update.a.iter() {
        let price = dec(&level[0]);
        assert!(dec("50000.01").le(&price) && price.le(&dec("50049.99")));
    }
    for level in update.b.iter().chain(update.a.iter()) {
        let qty: u64 = level[1].parse().unwrap();
        assert!(qty < 100);
    }
}

#[test]
fn fake_updates_can_be_applied() {
    let scaler = Scaler::new(dec("0.01"), dec("0.01"));
    let mut book = OrderBook::from_snapshot(DepthSnapshot::fake_snapshot(1000), &scaler);

    for i in 0..20 {
        assert!(book.apply_update(&DepthUpdate::fake_update(i, 100), &scaler));
    }

    let (bids, asks) = book.top_n_depth(10_000);
    assert!(bids.iter().chain(asks.iter()).all(|(_, qty)| *qty != 0));
    assert!(bids.windows(2).all(|w| w[0].0 > w[1].0));
    assert!(asks.windows(2).all(|w| w[0].0 < w[1].0));
}
