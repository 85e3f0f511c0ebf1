use orderbook_engine::book::scaler::{Alignment, Scaler};
use orderbook_engine::decimal::Decimal;

fn dec(text: &str) -> Decimal {
    Decimal::parse(text).unwrap()
}

#[test]
fn computes_scales_from_tick_and_step() {
    let scaler = Scaler::new(dec("0.0001000"), dec("0.0500"));

    assert_eq!(scaler.price_scale(), 10_000); // 4 decimal places after normalizing 0.0001000
    assert_eq!(scaler.qty_scale(), 100); // 2 decimal places after normalizing 0.0500
}

#[test]
fn converts_price_and_qty_round_trip() {
    let scaler = Scaler::new(dec("0.01"), dec("0.001"));

    let price = "1234.56";
    let price_ticks = scaler.price_to_ticks(price).unwrap();
    assert_eq!(price_ticks, 123_456);
    assert_eq!(scaler.ticks_to_price(price_ticks), dec(price));

    let qty = "0.123";
    let qty_ticks = scaler.qty_to_ticks(qty).unwrap();
    assert_eq!(qty_ticks, 123);
    assert_eq!(scaler.ticks_to_qty(qty_ticks), dec(qty));
}

#[test]
fn rejects_values_not_aligned_to_tick_or_step() {
    let scaler = Scaler::with_alignment(dec("0.01"), dec("0.1"), Alignment::Reject);

    // Price 0.015 is 1.5 ticks -> not an integer number of ticks
    assert!(scaler.price_to_ticks("0.015").is_none());

    // Qty 0.25 is 2.5 steps when step size is 0.1
    assert!(scaler.qty_to_ticks("0.25").is_none());
}

#[test]
fn rounds_values_off_the_grid_to_the_even_neighbour() {
    let scaler = Scaler::new(dec("0.01"), dec("0.1"));

    assert_eq!(scaler.alignment(), Alignment::Round);
    assert_eq!(scaler.price_to_ticks("0.015"), Some(2));
    assert_eq!(scaler.price_to_ticks("0.025"), Some(2));
    assert_eq!(scaler.price_to_ticks("0.0251"), Some(3));
    assert_eq!(scaler.price_to_ticks("0.0149"), Some(1));
    assert_eq!(scaler.qty_to_ticks("0.25"), Some(2));
    assert_eq!(scaler.qty_to_ticks("0.35"), Some(4));
}

#[test]
fn text_that_is_no_number_has_no_ticks() {
    let scaler = Scaler::new(dec("0.01"), dec("0.001"));

    assert_eq!(scaler.price_to_ticks("abc"), None);
    assert_eq!(scaler.price_to_ticks(""), None);
    assert_eq!(scaler.qty_to_ticks("1.2.3"), None);
}

#[test]
fn negative_values_have_no_ticks() {
    let scaler = Scaler::new(dec("0.01"), dec("0.001"));

    assert_eq!(scaler.price_to_ticks("-1.00"), None);
    assert_eq!(scaler.price_to_ticks("-0.003"), None);
    assert_eq!(scaler.qty_to_ticks("-0.0004"), None);
}

#[test]
fn zero_converts_to_zero_ticks() {
    let scaler = Scaler::new(dec("0.01"), dec("0.001"));

    assert_eq!(scaler.price_to_ticks("0"), Some(0));
    assert_eq!(scaler.qty_to_ticks("0.00000000"), Some(0));
    assert_eq!(scaler.ticks_to_price(0), dec("0"));
}

#[test]
fn zero_tick_size_gives_no_ticks() {
    let scaler = Scaler::new(dec("0"), dec("0.001"));

    assert_eq!(scaler.price_to_ticks("1.00"), None);
    assert_eq!(scaler.qty_to_ticks("1.000"), Some(1000));
}

#[test]
fn price_with_fewer_decimals_than_the_tick_converts() {
    let scaler = Scaler::new(dec("0.0001000"), dec("0.05"));

    assert_eq!(scaler.price_to_ticks("1.2345"), Some(12_345));
    assert_eq!(scaler.price_to_ticks("2"), Some(20_000));
    assert_eq!(scaler.qty_to_ticks("0.1"), Some(2));
    assert_eq!(scaler.ticks_to_price(12_345), dec("1.2345"));
    assert_eq!(scaler.ticks_to_qty(2), dec("0.1"));
}

#[test]
fn round_trip_holds_on_a_grid_of_prices() {
    let scaler = Scaler::new(dec("0.05"), dec("0.001"));
    for k in [0u64, 1, 2, 19, 20, 21, 999, 1_000_000, 123_456_789] {
        let price = scaler.ticks_to_price(k);
        let qty = scaler.ticks_to_qty(k);
        assert_eq!(Scaler::count_units(&price, &scaler.tick_size(), Alignment::Reject), Some(k));
        assert_eq!(Scaler::count_units(&qty, &scaler.step_size(), Alignment::Reject), Some(k));
    }
    assert_eq!(scaler.price_to_ticks("61725.45"), Some(1_234_509));
    assert_eq!(scaler.ticks_to_price(1_234_509), dec("61725.45"));
}

#[test]
fn ticks_to_price_is_exact_multiplication() {
    let scaler = Scaler::new(dec("0.25"), dec("0.001"));

    let price = scaler.ticks_to_price(7);
    assert_eq!(price.mantissa(), 175);
    assert_eq!(price.scale(), 2);
    let qty = scaler.ticks_to_qty(1500);
    assert_eq!(qty.mantissa(), 1500);
    assert_eq!(qty.scale(), 3);
}

#[test]
fn amounts_that_do_not_fit_are_refused() {
    let scaler = Scaler::new(dec("79228162514264337593543950335"), dec("0.001"));

    assert!(scaler.try_ticks_to_price(1).is_some());
    assert!(scaler.try_ticks_to_price(2).is_none());
    assert_eq!(scaler.try_ticks_to_price(0), Some(dec("0")));
    assert_eq!(scaler.try_ticks_to_qty(u64::MAX), Some(dec("18446744073709551.615")));
}

#[test]
fn count_from_quotient_follows_the_alignment() {
    assert_eq!(Scaler::count_from_quotient(&dec("12"), Alignment::Reject), Some(12));
    assert_eq!(Scaler::count_from_quotient(&dec("12.000"), Alignment::Reject), Some(12));
    assert_eq!(Scaler::count_from_quotient(&dec("12.5"), Alignment::Reject), None);
    assert_eq!(Scaler::count_from_quotient(&dec("12.5"), Alignment::Round), Some(12));
    assert_eq!(Scaler::count_from_quotient(&dec("13.5"), Alignment::Round), Some(14));
    assert_eq!(Scaler::count_from_quotient(&dec("-0.4"), Alignment::Round), None);
    assert_eq!(Scaler::count_from_quotient(&dec("-3"), Alignment::Round), None);
    assert_eq!(
        Scaler::count_from_quotient(&dec("18446744073709551615"), Alignment::Round),
        Some(u64::MAX)
    );
    assert_eq!(Scaler::count_from_quotient(&dec("18446744073709551616"), Alignment::Round), None);
    assert_eq!(Scaler::count_from_quotient(&dec("18446744073709551615.5"), Alignment::Round), None);
}

#[test]
fn scale_of_a_whole_tick_is_one() {
    let scaler = Scaler::new(dec("5"), dec("100"));

    assert_eq!(scaler.price_scale(), 1);
    assert_eq!(scaler.qty_scale(), 1);
}

#[test]
fn scale_beyond_u64_is_held_at_the_maximum() {
    let scaler = Scaler::new(dec("0.0000000000000000000000000001"), dec("0.0000000000000000001"));

    assert_eq!(scaler.price_scale(), u64::MAX);
    assert_eq!(scaler.qty_scale(), 10_000_000_000_000_000_000);
}
