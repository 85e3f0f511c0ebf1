use orderbook_engine::decimal::Decimal;
use orderbook_engine::engine::metrics::Ratio;
use orderbook_engine::tui::{
    buy_sell_percent, grade_lag, split_duration, volume_decimals, Key, LagGrade, UiState,
};

#[test]
fn dashboard_starts_running() {
    let state = UiState::new();

    assert_eq!(state, UiState { should_quit: false, frozen: false, update_interval_ms: 500 });
}

#[test]
fn quit_key_ends_the_dashboard() {
    let mut state = UiState::new();

    assert!(!state.on_key(Key::Quit));

    assert!(state.should_quit);
}

#[test]
fn freeze_key_switches_and_redraws() {
    let mut state = UiState::new();

    assert!(state.on_key(Key::ToggleFreeze));
    assert!(state.frozen);
    assert!(state.on_key(Key::ToggleFreeze));
    assert!(!state.frozen);
}

#[test]
fn interval_moves_in_steps_between_its_bounds() {
    let mut state = UiState::new();

    state.on_key(Key::Slower);
    assert_eq!(state.update_interval_ms, 600);
    for _ in 0..20 {
        state.on_key(Key::Slower);
    }
    assert_eq!(state.update_interval_ms, 2_000);
    state.on_key(Key::Faster);
    assert_eq!(state.update_interval_ms, 1_900);
    for _ in 0..30 {
        state.on_key(Key::Faster);
    }
    assert_eq!(state.update_interval_ms, 100);
    state.on_key(Key::Other);
    assert_eq!(state, UiState { should_quit: false, frozen: false, update_interval_ms: 100 });
}

#[test]
fn interval_outside_its_bounds_is_brought_back() {
    let mut state = UiState { should_quit: false, frozen: false, update_interval_ms: 30 };
    state.on_key(Key::Faster);
    assert_eq!(state.update_interval_ms, 100);

    let mut state = UiState { should_quit: false, frozen: false, update_interval_ms: u64::MAX };
    state.on_key(Key::Slower);
    assert_eq!(state.update_interval_ms, 2_000);
}

#[test]
fn lags_are_graded() {
    assert_eq!(grade_lag(Some(0)), LagGrade::Good);
    assert_eq!(grade_lag(Some(49)), LagGrade::Good);
    assert_eq!(grade_lag(Some(50)), LagGrade::Fair);
    assert_eq!(grade_lag(Some(199)), LagGrade::Fair);
    assert_eq!(grade_lag(Some(200)), LagGrade::Poor);
    assert_eq!(grade_lag(None), LagGrade::Unknown);
}

#[test]
fn durations_are_split() {
    assert_eq!(split_duration(0), (0, 0, 0));
    assert_eq!(split_duration(59), (0, 0, 59));
    assert_eq!(split_duration(3_599), (0, 59, 59));
    assert_eq!(split_duration(3_600), (1, 0, 0));
    assert_eq!(split_duration(90_061), (25, 1, 1));
}

#[test]
fn buy_and_sell_percent_add_up_to_a_hundred() {
    assert_eq!(buy_sell_percent(Some(Ratio { numerator: 2, denominator: 3 })), Some((67, 33)));
    assert_eq!(buy_sell_percent(Some(Ratio { numerator: 1, denominator: 8 })), Some((13, 87)));
    assert_eq!(buy_sell_percent(Some(Ratio { numerator: 1, denominator: 200 })), Some((1, 99)));
    assert_eq!(buy_sell_percent(Some(Ratio { numerator: 0, denominator: 5 })), Some((0, 100)));
    assert_eq!(buy_sell_percent(Some(Ratio { numerator: 5, denominator: 5 })), Some((100, 0)));
    assert_eq!(
        buy_sell_percent(Some(Ratio { numerator: u64::MAX, denominator: u64::MAX })),
        Some((100, 0))
    );
    assert_eq!(buy_sell_percent(Some(Ratio { numerator: 1, denominator: 0 })), None);
    assert_eq!(buy_sell_percent(Some(Ratio { numerator: 6, denominator: 5 })), None);
    assert_eq!(buy_sell_percent(None), None);
}

#[test]
fn large_volumes_are_shown_with_fewer_decimals() {
    assert_eq!(volume_decimals(&Decimal::parse("999.9999").unwrap()), 4);
    assert_eq!(volume_decimals(&Decimal::parse("1000").unwrap()), 2);
    assert_eq!(volume_decimals(&Decimal::parse("1000.000").unwrap()), 2);
    assert_eq!(volume_decimals(&Decimal::parse("-5000").unwrap()), 4);
}
