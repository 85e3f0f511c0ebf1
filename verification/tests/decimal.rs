use orderbook_engine::decimal::Decimal;

fn dec(text: &str) -> Decimal {
    Decimal::parse(text).unwrap()
}

fn parts(d: Decimal) -> (i128, u32) {
    (d.mantissa(), d.scale())
}

#[test]
fn parse_keeps_mantissa_and_scale() {
    assert_eq!(parts(dec("1234.56")), (123_456, 2));
    assert_eq!(parts(dec("0.0500")), (500, 4));
    assert_eq!(parts(dec("-7.5")), (-75, 1));
    assert_eq!(parts(dec("42")), (42, 0));
    assert!(Decimal::parse("4 2").is_none());
    assert!(Decimal::parse("").is_none());
}

#[test]
fn from_parts_checks_the_ranges() {
    assert_eq!(Decimal::from_parts(5, 28).map(parts), Some((5, 28)));
    assert!(Decimal::from_parts(5, 29).is_none());
    let limit: i128 = 79_228_162_514_264_337_593_543_950_336;
    assert!(Decimal::from_parts(limit, 0).is_none());
    assert!(Decimal::from_parts(-limit, 0).is_none());
    assert_eq!(Decimal::from_parts(limit - 1, 0).map(parts), Some((limit - 1, 0)));
    assert_eq!(Decimal::from_parts(1 - limit, 3).map(parts), Some((1 - limit, 3)));
}

#[test]
fn division_of_even_mantissas_is_exact() {
    let q = dec("1234.56").checked_div(&dec("0.01")).unwrap();
    assert_eq!(parts(q), (123_456, 0));
    let q = dec("-9.000").checked_div(&dec("0.3")).unwrap();
    assert_eq!(parts(q), (-3000, 2));
    let q = dec("0.000").checked_div(&dec("-0.3")).unwrap();
    assert_eq!(parts(q), (0, 0));
}

#[test]
fn division_by_zero_gives_nothing() {
    assert!(dec("1").checked_div(&dec("0")).is_none());
    assert!(dec("0").checked_div(&dec("0.00")).is_none());
}

#[test]
fn division_with_a_remainder_keeps_the_value() {
    let q = dec("1").checked_div(&dec("8")).unwrap();
    assert_eq!(q, dec("0.125"));
    let q = dec("0.1").checked_div(&dec("0.05")).unwrap();
    assert_eq!(q, dec("2"));
}

#[test]
fn multiplication_that_fits_is_exact() {
    let p = dec("1.5").checked_mul(&dec("-0.25")).unwrap();
    assert_eq!(parts(p), (-375, 3));
    let p = dec("0.00").checked_mul(&dec("12.5")).unwrap();
    assert_eq!(parts(p), (0, 0));
    assert!(dec("79228162514264337593543950335").checked_mul(&dec("10")).is_none());
}

#[test]
fn addition_adds() {
    assert_eq!(dec("1.25").checked_add(&dec("2.5")).unwrap(), dec("3.75"));
    assert!(dec("79228162514264337593543950335").checked_add(&dec("1")).is_none());
}

#[test]
fn order_goes_by_value() {
    assert!(dec("1.50").le(&dec("1.5")));
    assert!(dec("1.5").le(&dec("1.50")));
    assert!(dec("1.49").le(&dec("1.5")));
    assert!(!dec("1.51").le(&dec("1.5")));
    assert!(dec("-2").le(&dec("0.001")));
    assert!(dec("1.50").same_value(&dec("1.5")));
    assert!(!dec("1.50").same_value(&dec("1.05")));
    assert_eq!(dec("3.100"), dec("3.1"));
    assert_ne!(dec("3.100"), dec("3.01"));
}

#[test]
fn whole_numbers_are_recognised() {
    assert!(dec("5").is_integer());
    assert!(dec("5.0000").is_integer());
    assert!(!dec("5.1").is_integer());
    assert!(dec("-5.00").is_integer());
    assert!(!dec("-0.01").is_integer());
    assert!(dec("0.000").is_integer());
}

#[test]
fn rounding_sends_halves_to_the_even_neighbour() {
    assert_eq!(parts(dec("6.5").round()), (6, 0));
    assert_eq!(parts(dec("7.5").round()), (8, 0));
    assert_eq!(parts(dec("7.49").round()), (7, 0));
    assert_eq!(parts(dec("7.51").round()), (8, 0));
    assert_eq!(parts(dec("-6.5").round()), (-6, 0));
    assert_eq!(parts(dec("-7.5").round()), (-8, 0));
    assert_eq!(parts(dec("12").round()), (12, 0));
    assert_eq!(parts(dec("0.4").round()), (0, 0));
}

#[test]
fn integer_part_as_u64() {
    assert_eq!(dec("12.99").to_u64(), Some(12));
    assert_eq!(dec("0.99").to_u64(), Some(0));
    assert_eq!(dec("-1").to_u64(), None);
    assert_eq!(dec("18446744073709551615.9").to_u64(), Some(u64::MAX));
    assert_eq!(dec("18446744073709551616").to_u64(), None);
}

#[test]
fn least_scale_strikes_trailing_zeros() {
    assert_eq!(dec("0.0001000").least_scale(), 4);
    assert_eq!(dec("0.0500").least_scale(), 2);
    assert_eq!(dec("100").least_scale(), 0);
    assert_eq!(dec("0.000").least_scale(), 0);
    assert_eq!(dec("-2.50").least_scale(), 1);
    assert_eq!(dec("1.000").least_scale(), 0);
}

#[test]
fn signs_and_zero() {
    assert!(dec("0.00").is_zero());
    assert!(!dec("0.01").is_zero());
    assert!(dec("-0.01").is_negative());
    assert!(dec("0.01").is_positive());
    assert!(!dec("0").is_positive());
    assert_eq!(parts(Decimal::from_u64(u64::MAX)), (u64::MAX as i128, 0));
    assert_eq!(parts(Decimal::zero()), (0, 0));
}

#[test]
fn division_by_wide_divisors_is_exact_where_it_is_even() {
    // a divisor of more than 32 bits
    let b = Decimal::from_parts(1_099_511_627_777, 3).unwrap();
    let a = Decimal::from_parts(1_099_511_627_777 * 123_456_789_012, 5).unwrap();
    assert_eq!(parts(a.checked_div(&b).unwrap()), (123_456_789_012, 2));
    // a divisor of more than 64 bits
    let b = Decimal::from_parts(1 << 70, 0).unwrap();
    let a = Decimal::from_parts(-(12_345 << 70), 4).unwrap();
    assert_eq!(parts(a.checked_div(&b).unwrap()), (-12_345, 4));
    // a dividend of more than 64 bits by a small divisor
    let a = Decimal::from_parts(7 * (1 << 80), 28).unwrap();
    let b = Decimal::from_parts(-7, 28).unwrap();
    assert_eq!(parts(a.checked_div(&b).unwrap()), (-(1 << 80), 0));
}

#[test]
fn multiplication_of_wide_factors_is_exact_where_it_fits() {
    let a = Decimal::from_parts(1 << 40, 10).unwrap();
    let b = Decimal::from_parts(-(1 << 50), 18).unwrap();
    assert_eq!(parts(a.checked_mul(&b).unwrap()), (-(1 << 90), 28));
    let a = Decimal::from_parts((1 << 95) + 12_345, 7).unwrap();
    let b = Decimal::from_parts(1, 21).unwrap();
    assert_eq!(parts(a.checked_mul(&b).unwrap()), ((1 << 95) + 12_345, 28));
    let a = Decimal::from_parts(3, 0).unwrap();
    let b = Decimal::from_parts((1 << 94) + 1, 2).unwrap();
    assert_eq!(parts(a.checked_mul(&b).unwrap()), (3 * ((1 << 94) + 1), 2));
    let a = Decimal::from_parts(u64::MAX as i128, 14).unwrap();
    let b = Decimal::from_parts(u32::MAX as i128, 14).unwrap();
    assert_eq!(parts(a.checked_mul(&b).unwrap()), (u64::MAX as i128 * u32::MAX as i128, 28));
}

#[test]
fn product_beyond_the_largest_scale_still_has_the_value() {
    let a = Decimal::from_parts(5, 20).unwrap();
    let b = Decimal::from_parts(2, 9).unwrap();
    let p = a.checked_mul(&b).unwrap();
    assert!(p.scale() <= 28);
    assert_eq!(p, Decimal::from_parts(1, 28).unwrap());
}
