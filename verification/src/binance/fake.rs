//! Made-up snapshots and updates around a fixed mid price, for trying the
//! book out.

use rand::Rng;
use vstd::prelude::*;
use crate::binance::types::{DepthSnapshot, DepthUpdate};
use crate::decimal::{decimal_text, whole_number, Decimal, DecimalModel, MANTISSA_LIMIT};

verus! {

/// The mid price of the made-up book in hundredths: 50000.00.
pub const FAKE_MID_HUNDREDTHS: i128 = 5_000_000;

/// A whole number from `low` up to but not including `high`, drawn at
/// random.
///
/// Trusted: this is `random_range` of the `rand` crate on the generator of
/// the thread, which returns a value of the range and panics on an empty
/// one. Which value it is depends on chance: the contract claims the range
/// only.
#[verifier::external_body]
fn random_between(low: u64, high: u64) -> (n: u64)
    requires
        low < high,
    ensures
        low <= n < high,
{
    rand::rng().random_range(low..high)
}

/// `true` in `numerator` out of `denominator` cases, drawn at random.
///
/// Trusted: this is `random_ratio` of the `rand` crate on the generator of
/// the thread, which panics where the denominator is zero or below the
/// numerator. What it returns depends on chance: the contract claims
/// nothing of it.
#[verifier::external_body]
fn random_chance(numerator: u32, denominator: u32) -> (hit: bool)
    requires
        0 < denominator,
        numerator <= denominator,
{
    rand::rng().random_ratio(numerator, denominator)
}

/// The price that lies `offset` hundredths below the mid price for a bid
/// and above it for an ask.
pub open spec fn fake_price(offset: int, is_bid: bool) -> DecimalModel {
    DecimalModel {
        mantissa: if is_bid {
            FAKE_MID_HUNDREDTHS - offset
        } else {
            FAKE_MID_HUNDREDTHS + offset
        },
        scale: 2,
    }
}

/// Whether `level` holds the price `offset` hundredths off the mid price
/// and a whole quantity from `low` up to but not including `high`.
pub open spec fn is_fake_level(level: [String; 2], offset: int, is_bid: bool, low: int, high: int) -> bool {
    &&& level@[0]@ == decimal_text(fake_price(offset, is_bid))
    &&& exists|qty: int| low <= qty < high && level@[1]@ == decimal_text(whole_number(qty))
}

/// The price `offset` hundredths off the mid price, written out.
fn fake_price_text(offset: u64, is_bid: bool) -> (text: String)
    ensures
        text@ == decimal_text(fake_price(offset as int, is_bid)),
{
    let hundredths: i128 = if is_bid {
        FAKE_MID_HUNDREDTHS - offset as i128
    } else {
        FAKE_MID_HUNDREDTHS + offset as i128
    };
    let price = match Decimal::from_parts(hundredths, 2) {
        Some(price) => price,
        None => Decimal::zero(),
    };
    price.to_text()
}

/// A level at `offset` hundredths off the mid price with the quantity
/// `qty`.
fn fake_level(offset: u64, is_bid: bool, qty: u64) -> (level: [String; 2])
    ensures
        level@[0]@ == decimal_text(fake_price(offset as int, is_bid)),
        level@[1]@ == decimal_text(whole_number(qty as int)),
{
    [fake_price_text(offset, is_bid), Decimal::from_u64(qty).to_text()]
}

/// One side of a made-up snapshot: `n_levels` levels, each a hundredth
/// further from the mid price than the one before, each with a quantity
/// from 1 to 99.
fn fake_side(n_levels: usize, is_bid: bool) -> (levels: Vec<[String; 2]>)
    ensures
        levels@.len() == n_levels,
        forall|i: int|
            0 <= i < n_levels ==> is_fake_level(#[trigger] levels@[i], i + 1, is_bid, 1, 100),
{
    let mut levels: Vec<[String; 2]> = Vec::new();
    let mut i: usize = 0;
    while i < n_levels
        invariant
            i <= n_levels,
            levels@.len() == i,
            forall|k: int|
                0 <= k < i ==> is_fake_level(#[trigger] levels@[k], k + 1, is_bid, 1, 100),
        decreases n_levels - i,
    {
        let qty = random_between(1, 100);
        let level = fake_level(i as u64 + 1, is_bid, qty);
        levels.push(level);
        i = i + 1;
    }
    levels
}

impl DepthSnapshot {
    /// A made-up snapshot with `n_levels` levels a side around the mid
    /// price 50000.00: the best bid a hundredth below it, the best ask a
    /// hundredth above it, each further level a hundredth further out, and
    /// every quantity a whole number from 1 to 99 drawn at random.
    pub fn fake_snapshot(n_levels: usize) -> (snapshot: Self)
        ensures
            snapshot.last_update_id == 0,
            snapshot.bids@.len() == n_levels,
            snapshot.asks@.len() == n_levels,
            forall|i: int|
                0 <= i < n_levels ==> is_fake_level(#[trigger] snapshot.bids@[i], i + 1, true, 1, 100),
            forall|i: int|
                0 <= i < n_levels ==> is_fake_level(
                    #[trigger] snapshot.asks@[i],
                    i + 1,
                    false,
                    1,
                    100,
                ),
    {
        let bids = fake_side(n_levels, true);
        let asks = fake_side(n_levels, false);
        Self { last_update_id: 0, bids, asks }
    }
}

/// Whether `level` is a level that a made-up update can hold on the given
/// side: a price from 1 to 4999 hundredths off the mid price, and a
/// quantity that is `0` or a whole number from 1 to 99.
pub open spec fn is_fake_change(level: [String; 2], is_bid: bool) -> bool {
    &&& exists|offset: int|
        1 <= offset < 5000 && level@[0]@ == decimal_text(fake_price(offset, is_bid))
    &&& (level@[1]@ == "0"@ || exists|qty: int|
        1 <= qty < 100 && level@[1]@ == decimal_text(whole_number(qty)))
}

/// One level change of a made-up update on the given side. In 85 of 100
/// cases the price lies within 999 hundredths of the mid price, else from
/// 1000 to 4999 hundredths off. In one of ten cases the quantity is zero,
/// which removes the level, else it is from 1 to 99.
fn fake_change(is_bid: bool) -> (level: [String; 2])
    ensures
        is_fake_change(level, is_bid),
{
    let offset = if random_chance(85, 100) {
        random_between(1, 1000)
    } else {
        random_between(1000, 5000)
    };
    if random_chance(1, 10) {
        let level = [fake_price_text(offset, is_bid), "0".to_string()];
        assert(level@[0]@ == decimal_text(fake_price(offset as int, is_bid)));
        level
    } else {
        let qty = random_between(1, 100);
        let level = fake_level(offset, is_bid, qty);
        assert(level@[1]@ == decimal_text(whole_number(qty as int)));
        level
    }
}

impl DepthUpdate {
    /// A made-up update of `n_levels` level changes that follows the
    /// update id `last_update_id`. Each change goes to the bids or to the
    /// asks with even chances.
    pub fn fake_update(last_update_id: u64, n_levels: usize) -> (update: Self)
        requires
            1 <= last_update_id + n_levels <= u64::MAX,
            last_update_id < u64::MAX,
        ensures
            update.event_time == 0,
            update.s@ == "FAKE"@,
            update.first_update_id == last_update_id + 1,
            update.final_update_id == last_update_id + n_levels - 1,
            update.b@.len() + update.a@.len() == n_levels,
            forall|i: int| 0 <= i < update.b@.len() ==> is_fake_change(#[trigger] update.b@[i], true),
            forall|i: int|
                0 <= i < update.a@.len() ==> is_fake_change(#[trigger] update.a@[i], false),
    {
        let mut bids: Vec<[String; 2]> = Vec::new();
        let mut asks: Vec<[String; 2]> = Vec::new();
        let mut i: usize = 0;
        while i < n_levels
            invariant
                i <= n_levels,
                bids@.len() + asks@.len() == i,
                forall|k: int| 0 <= k < bids@.len() ==> is_fake_change(#[trigger] bids@[k], true),
                forall|k: int| 0 <= k < asks@.len() ==> is_fake_change(#[trigger] asks@[k], false),
            decreases n_levels - i,
        {
            let is_bid = random_chance(1, 2);
            let level = fake_change(is_bid);
            if is_bid {
                bids.push(level);
            } else {
                asks.push(level);
            }
            i = i + 1;
        }
        Self {
            event_time: 0,
            s: "FAKE".to_string(),
            first_update_id: last_update_id + 1,
            final_update_id: (last_update_id as u128 + n_levels as u128 - 1) as u64,
            b: bids,
            a: asks,
        }
    }
}

} // verus!
