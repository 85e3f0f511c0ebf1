//! The decisions of the dashboard: what a key does, and how readings are
//! graded and split for display. Drawing is left to whoever runs it.

use vstd::prelude::*;
use crate::decimal::{whole_number, Decimal};
use crate::engine::metrics::Ratio;

verus! {

/// The shortest time between two redraws, in milliseconds.
pub const MIN_UPDATE_INTERVAL_MS: u64 = 100;

/// The longest time between two redraws, in milliseconds.
pub const MAX_UPDATE_INTERVAL_MS: u64 = 2_000;

/// By how much a key changes the time between two redraws.
pub const UPDATE_INTERVAL_STEP_MS: u64 = 100;

/// What a key press means to the dashboard.
#[derive(Clone, Copy, Debug, PartialEq, Eq, Structural)]
pub enum Key {
    /// `q`, `Q` or escape.
    Quit,
    /// `f` or `F`.
    ToggleFreeze,
    /// Arrow up: redraw less often.
    Slower,
    /// Arrow down: redraw more often.
    Faster,
    /// Any other key.
    Other,
}

/// What the dashboard remembers between two key presses.
#[derive(Clone, Copy, Debug, PartialEq, Eq, Structural)]
pub struct UiState {
    pub should_quit: bool,
    pub frozen: bool,
    pub update_interval_ms: u64,
}

/// How a lag compares with what is usual.
#[derive(Clone, Copy, Debug, PartialEq, Eq, Structural)]
pub enum LagGrade {
    /// Below 50 milliseconds.
    Good,
    /// From 50 to below 200 milliseconds.
    Fair,
    /// 200 milliseconds and more.
    Poor,
    /// Not measured.
    Unknown,
}

/// The state that a key leads to.
pub open spec fn after_key(state: UiState, key: Key) -> UiState {
    match key {
        Key::Quit => UiState { should_quit: true, ..state },
        Key::ToggleFreeze => UiState { frozen: !state.frozen, ..state },
        Key::Slower => UiState {
            update_interval_ms: if state.update_interval_ms + UPDATE_INTERVAL_STEP_MS
                >= MAX_UPDATE_INTERVAL_MS {
                MAX_UPDATE_INTERVAL_MS
            } else {
                (state.update_interval_ms + UPDATE_INTERVAL_STEP_MS) as u64
            },
            ..state
        },
        Key::Faster => UiState {
            update_interval_ms: if state.update_interval_ms <= MIN_UPDATE_INTERVAL_MS
                + UPDATE_INTERVAL_STEP_MS {
                MIN_UPDATE_INTERVAL_MS
            } else {
                (state.update_interval_ms - UPDATE_INTERVAL_STEP_MS) as u64
            },
            ..state
        },
        Key::Other => state,
    }
}

/// `share` in percent, rounded to the nearest whole number, halves upwards.
pub open spec fn percent_of(share: Ratio) -> int {
    (200 * share.numerator + share.denominator) / (2 * share.denominator)
}

impl UiState {
    /// The state at the start: running, redrawn twice a second.
    pub fn new() -> (state: Self)
        ensures
            state == (UiState { should_quit: false, frozen: false, update_interval_ms: 500 }),
    {
        UiState { should_quit: false, frozen: false, update_interval_ms: 500 }
    }

    /// Takes in a key press. Returns whether the dashboard is to be drawn
    /// at once, which is so after the freeze was switched.
    pub fn on_key(&mut self, key: Key) -> (redraw: bool)
        ensures
            *final(self) == after_key(*old(self), key),
            redraw == (key == Key::ToggleFreeze),
    {
        match key {
            Key::Quit => {
                self.should_quit = true;
                false
            },
            Key::ToggleFreeze => {
                self.frozen = !self.frozen;
                true
            },
            Key::Slower => {
                self.update_interval_ms = if self.update_interval_ms >= MAX_UPDATE_INTERVAL_MS
                    - UPDATE_INTERVAL_STEP_MS {
                    MAX_UPDATE_INTERVAL_MS
                } else {
                    self.update_interval_ms + UPDATE_INTERVAL_STEP_MS
                };
                false
            },
            Key::Faster => {
                self.update_interval_ms = if self.update_interval_ms <= MIN_UPDATE_INTERVAL_MS
                    + UPDATE_INTERVAL_STEP_MS {
                    MIN_UPDATE_INTERVAL_MS
                } else {
                    self.update_interval_ms - UPDATE_INTERVAL_STEP_MS
                };
                false
            },
            Key::Other => false,
        }
    }
}

/// The grade of a lag in milliseconds.
pub fn grade_lag(lag_ms: Option<u64>) -> (grade: LagGrade)
    ensures
        grade == match lag_ms {
            Some(ms) => if ms < 50 {
                LagGrade::Good
            } else if ms < 200 {
                LagGrade::Fair
            } else {
                LagGrade::Poor
            },
            None => LagGrade::Unknown,
        },
{
    match lag_ms {
        Some(ms) => {
            if ms < 50 {
                LagGrade::Good
            } else if ms < 200 {
                LagGrade::Fair
            } else {
                LagGrade::Poor
            }
        },
        None => LagGrade::Unknown,
    }
}

/// A time in seconds as hours, minutes below sixty and seconds below
/// sixty.
pub fn split_duration(total_secs: u64) -> (parts: (u64, u64, u64))
    ensures
        parts.0 * 3600 + parts.1 * 60 + parts.2 == total_secs,
        parts.1 < 60,
        parts.2 < 60,
{
    let seconds = total_secs % 60;
    let minutes = (total_secs / 60) % 60;
    let hours = total_secs / 3600;
    (hours, minutes, seconds)
}

/// The share of buys and the share of sells in percent, where there is a
/// share of something: the denominator is above zero and not below the
/// numerator. The buys are rounded to the nearest whole number, halves
/// upwards, and the sells are what is left to a hundred.
pub fn buy_sell_percent(share: Option<Ratio>) -> (percent: Option<(u32, u32)>)
    ensures
        percent is Some <==> (share matches Some(s) && 0 < s.denominator && s.numerator
            <= s.denominator),
        percent matches Some(p) ==> p.0 == percent_of(share->0) && p.0 + p.1 == 100,
{
    let share = match share {
        Some(share) => share,
        None => {
            return None;
        },
    };
    if share.denominator == 0 || share.numerator > share.denominator {
        return None;
    }
    let numerator: u128 = 200 * (share.numerator as u128) + share.denominator as u128;
    let denominator: u128 = 2 * (share.denominator as u128);
    let buys = numerator / denominator;
    proof {
        vstd::arithmetic::div_mod::lemma_fundamental_div_mod(numerator as int, denominator as int);
        vstd::arithmetic::div_mod::lemma_mod_pos_bound(numerator as int, denominator as int);
        let rest = numerator as int % denominator as int;
        assert(buys <= 100) by (nonlinear_arith)
            requires
                numerator == denominator * buys + rest,
                0 <= rest,
                numerator < 101 * denominator,
                denominator > 0,
        ;
    }
    Some((buys as u32, 100 - buys as u32))
}

/// With how many decimals a volume is shown: two from a thousand on, else
/// four.
pub fn volume_decimals(volume: &Decimal) -> (decimals: u32)
    ensures
        decimals == if whole_number(1000).at_most(volume@) {
            2u32
        } else {
            4u32
        },
{
    if Decimal::from_u64(1000).le(volume) {
        2
    } else {
        4
    }
}

} // verus!
