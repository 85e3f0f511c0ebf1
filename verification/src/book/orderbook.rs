//! The order book: resting quantity per price on the bid and the ask side,
//! in integer ticks.

use std::collections::BTreeMap;
use vstd::prelude::*;
use vstd::std_specs::cmp::OrdSpec;
use vstd::std_specs::iter::IteratorSpec;
use crate::binance::types::{DepthSnapshot, DepthUpdate};
use crate::book::scaler::{count_of_text, Scaler, ScalerModel};

verus! {

/// The two sides of the book, each a map from price ticks to quantity
/// ticks.
#[derive(Debug)]
pub struct OrderBook {
    bids: BTreeMap<u64, u64>,
    asks: BTreeMap<u64, u64>,
}

/// The mathematical content of an [`OrderBook`].
pub struct BookModel {
    pub bids: Map<u64, u64>,
    pub asks: Map<u64, u64>,
}

/// A price with the quantity resting at it, both in ticks.
pub type Level = (u64, u64);

/// Whether no price of `side` holds a zero quantity.
pub open spec fn no_empty_level(side: Map<u64, u64>) -> bool {
    forall|price: u64| side.contains_key(price) ==> #[trigger] side[price] != 0
}

impl BookModel {
    /// Whether the book is one that the library builds: each side holds
    /// finitely many prices, none with a zero quantity.
    pub open spec fn well_formed(self) -> bool {
        &&& self.bids.dom().finite()
        &&& self.asks.dom().finite()
        &&& no_empty_level(self.bids)
        &&& no_empty_level(self.asks)
    }
}

/// `side` after one level change: a zero quantity removes the price, any
/// other replaces what rests there.
pub open spec fn with_level(side: Map<u64, u64>, price: u64, qty: u64) -> Map<u64, u64> {
    if qty == 0 {
        side.remove(price)
    } else {
        side.insert(price, qty)
    }
}

/// `side` after the level written as price and quantity text. A level whose
/// price or quantity has no count of ticks changes nothing.
pub open spec fn with_text_level(
    side: Map<u64, u64>,
    price: Seq<char>,
    qty: Seq<char>,
    scaler: ScalerModel,
) -> Map<u64, u64> {
    match (
        count_of_text(price, scaler.tick_size, scaler.alignment),
        count_of_text(qty, scaler.step_size, scaler.alignment),
    ) {
        (Some(p), Some(q)) => with_level(side, p, q),
        _ => side,
    }
}

/// `side` after the first `n` of `levels`, taken in order.
pub open spec fn with_levels(
    side: Map<u64, u64>,
    levels: Seq<[String; 2]>,
    n: int,
    scaler: ScalerModel,
) -> Map<u64, u64>
    decreases n,
{
    if n <= 0 {
        side
    } else {
        with_text_level(
            with_levels(side, levels, n - 1, scaler),
            levels[n - 1]@[0]@,
            levels[n - 1]@[1]@,
            scaler,
        )
    }
}

/// How many of the first `n` of `levels` have no count of ticks for their
/// price or their quantity.
pub open spec fn unreadable_levels(levels: Seq<[String; 2]>, n: int, scaler: ScalerModel) -> int
    decreases n,
{
    if n <= 0 {
        0
    } else {
        unreadable_levels(levels, n - 1, scaler) + if count_of_text(
            levels[n - 1]@[0]@,
            scaler.tick_size,
            scaler.alignment,
        ) is None || count_of_text(levels[n - 1]@[1]@, scaler.step_size, scaler.alignment)
            is None {
            1int
        } else {
            0int
        }
    }
}

impl BookModel {
    /// The book after the level changes of `update`.
    pub open spec fn after_update(self, update: DepthUpdate, scaler: ScalerModel) -> BookModel {
        BookModel {
            bids: with_levels(self.bids, update.b@, update.b@.len() as int, scaler),
            asks: with_levels(self.asks, update.a@, update.a@.len() as int, scaler),
        }
    }

    /// The book after the first `n` of `updates`, applied in order.
    pub open spec fn after_updates(
        self,
        updates: Seq<DepthUpdate>,
        n: int,
        scaler: ScalerModel,
    ) -> BookModel
        decreases n,
    {
        if n <= 0 {
            self
        } else {
            self.after_updates(updates, n - 1, scaler).after_update(updates[n - 1], scaler)
        }
    }

    /// Whether every level of the first `n` of `updates` can be read.
    pub open spec fn updates_readable(updates: Seq<DepthUpdate>, n: int, scaler: ScalerModel) -> bool
        decreases n,
    {
        if n <= 0 {
            true
        } else {
            &&& Self::updates_readable(updates, n - 1, scaler)
            &&& unreadable_levels(updates[n - 1].b@, updates[n - 1].b@.len() as int, scaler) == 0
            &&& unreadable_levels(updates[n - 1].a@, updates[n - 1].a@.len() as int, scaler) == 0
        }
    }

    /// The book that a snapshot describes.
    pub open spec fn of_snapshot(snapshot: DepthSnapshot, scaler: ScalerModel) -> BookModel {
        BookModel {
            bids: with_levels(
                Map::<u64, u64>::empty(),
                snapshot.bids@,
                snapshot.bids@.len() as int,
                scaler,
            ),
            asks: with_levels(
                Map::<u64, u64>::empty(),
                snapshot.asks@,
                snapshot.asks@.len() as int,
                scaler,
            ),
        }
    }
}

/// Level changes never leave a price with a zero quantity behind.
pub proof fn lemma_levels_leave_no_empty_level(
    side: Map<u64, u64>,
    levels: Seq<[String; 2]>,
    n: int,
    scaler: ScalerModel,
)
    requires
        no_empty_level(side),
    ensures
        no_empty_level(with_levels(side, levels, n, scaler)),
    decreases n,
{
    if n > 0 {
        lemma_levels_leave_no_empty_level(side, levels, n - 1, scaler);
    }
}

/// However many updates are applied to a book without an empty level, none
/// of them leaves a price with a zero quantity behind.
pub proof fn lemma_updates_leave_no_empty_level(
    book: BookModel,
    updates: Seq<DepthUpdate>,
    n: int,
    scaler: ScalerModel,
)
    requires
        no_empty_level(book.bids),
        no_empty_level(book.asks),
    ensures
        no_empty_level(book.after_updates(updates, n, scaler).bids),
        no_empty_level(book.after_updates(updates, n, scaler).asks),
    decreases n,
{
    if n > 0 {
        lemma_updates_leave_no_empty_level(book, updates, n - 1, scaler);
        let before = book.after_updates(updates, n - 1, scaler);
        let update = updates[n - 1];
        lemma_levels_leave_no_empty_level(before.bids, update.b@, update.b@.len() as int, scaler);
        lemma_levels_leave_no_empty_level(before.asks, update.a@, update.a@.len() as int, scaler);
    }
}

/// The highest price of `side`, with its quantity.
pub open spec fn is_highest(side: Map<u64, u64>, level: Level) -> bool {
    &&& side.contains_key(level.0)
    &&& side[level.0] == level.1
    &&& forall|price: u64| side.contains_key(price) ==> price <= level.0
}

/// The lowest price of `side`, with its quantity.
pub open spec fn is_lowest(side: Map<u64, u64>, level: Level) -> bool {
    &&& side.contains_key(level.0)
    &&& side[level.0] == level.1
    &&& forall|price: u64| side.contains_key(price) ==> level.0 <= price
}

/// The highest price of `side`, where it has one.
#[verifier::opaque]
pub open spec fn highest_price(side: Map<u64, u64>) -> u64 {
    choose|top: u64|
        side.contains_key(top) && forall|price: u64| side.contains_key(price) ==> price <= top
}

/// The lowest price of `side`, where it has one.
#[verifier::opaque]
pub open spec fn lowest_price(side: Map<u64, u64>) -> u64 {
    choose|low: u64|
        side.contains_key(low) && forall|price: u64| side.contains_key(price) ==> low <= price
}

/// A side has one highest price only.
pub proof fn lemma_highest_is_unique(side: Map<u64, u64>, level: Level)
    requires
        is_highest(side, level),
    ensures
        highest_price(side) == level.0,
        side[highest_price(side)] == level.1,
{
    reveal(highest_price);
    let top = highest_price(side);
    assert(side.contains_key(top) && forall|price: u64| side.contains_key(price) ==> price <= top);
}

/// A side has one lowest price only.
pub proof fn lemma_lowest_is_unique(side: Map<u64, u64>, level: Level)
    requires
        is_lowest(side, level),
    ensures
        lowest_price(side) == level.0,
        side[lowest_price(side)] == level.1,
{
    reveal(lowest_price);
    let low = lowest_price(side);
    assert(side.contains_key(low) && forall|price: u64| side.contains_key(price) ==> low <= price);
}

impl BookModel {
    /// The highest bid with its quantity.
    pub open spec fn best_bid(self) -> Option<Level> {
        if self.bids.dom().is_empty() {
            None
        } else {
            Some((highest_price(self.bids), self.bids[highest_price(self.bids)]))
        }
    }

    /// The lowest ask with its quantity.
    pub open spec fn best_ask(self) -> Option<Level> {
        if self.asks.dom().is_empty() {
            None
        } else {
            Some((lowest_price(self.asks), self.asks[lowest_price(self.asks)]))
        }
    }

    /// The lowest ask less the highest bid, in ticks, where both sides
    /// have a level; zero where the book is crossed.
    pub open spec fn spread(self) -> Option<u64> {
        match (self.best_bid(), self.best_ask()) {
            (Some(bid), Some(ask)) => Some(
                if ask.0 >= bid.0 {
                    (ask.0 - bid.0) as u64
                } else {
                    0
                },
            ),
            _ => None,
        }
    }

    /// Half the sum of the lowest ask and the highest bid, in ticks, rounded
    /// down, where both sides have a level.
    pub open spec fn mid_price(self) -> Option<u64> {
        match (self.best_bid(), self.best_ask()) {
            (Some(bid), Some(ask)) => Some(((ask.0 + bid.0) / 2) as u64),
            _ => None,
        }
    }
}

/// Whether `levels` lists every level of `side` once, from the lowest price
/// up.
#[verifier::opaque]
pub open spec fn is_ascending_listing(levels: Seq<Level>, side: Map<u64, u64>) -> bool {
    &&& forall|i: int|
        0 <= i < levels.len() ==> side.contains_key((#[trigger] levels[i]).0) && side[levels[i].0]
            == levels[i].1
    &&& forall|i: int, j: int|
        0 <= i < j < levels.len() ==> (#[trigger] levels[i]).0 < (#[trigger] levels[j]).0
    &&& forall|price: u64|
        side.contains_key(price) ==> exists|i: int|
            0 <= i < levels.len() && (#[trigger] levels[i]).0 == price
}

/// The levels of `side` from the lowest price up.
pub open spec fn ascending(side: Map<u64, u64>) -> Seq<Level>
    decreases side.dom().len(),
    when side.dom().finite()
{
    if side.contains_key(lowest_price(side)) {
        seq![(lowest_price(side), side[lowest_price(side)])] + ascending(
            side.remove(lowest_price(side)),
        )
    } else {
        Seq::empty()
    }
}

/// The levels of `side` from the highest price down.
pub open spec fn descending(side: Map<u64, u64>) -> Seq<Level> {
    ascending(side).reverse()
}

/// The first `n` of `levels`, or all of them where there are fewer.
pub open spec fn first_n(levels: Seq<Level>, n: nat) -> Seq<Level> {
    if n < levels.len() {
        levels.take(n as int)
    } else {
        levels
    }
}

/// The sum of the quantities of `levels`.
pub open spec fn total_quantity(levels: Seq<Level>) -> int
    decreases levels.len(),
{
    if levels.len() == 0 {
        0
    } else {
        total_quantity(levels.drop_last()) + levels.last().1
    }
}

proof fn lemma_empty_listing(levels: Seq<Level>, side: Map<u64, u64>)
    requires
        is_ascending_listing(levels, side),
        levels.len() == 0,
    ensures
        side.dom() =~= Set::<u64>::empty(),
        !side.contains_key(lowest_price(side)),
{
    reveal(is_ascending_listing);
    assert forall|price: u64| !side.contains_key(price) by {}
}

proof fn lemma_first_is_lowest(levels: Seq<Level>, side: Map<u64, u64>)
    requires
        is_ascending_listing(levels, side),
        levels.len() > 0,
    ensures
        is_lowest(side, levels[0]),
{
    reveal(is_ascending_listing);
    let first = levels[0];
    assert forall|price: u64| side.contains_key(price) implies first.0 <= price by {
        let i = choose|i: int| 0 <= i < levels.len() && (#[trigger] levels[i]).0 == price;
        if i > 0 {
            assert(levels[0].0 < levels[i].0);
        }
    }
}

proof fn lemma_tail_is_listing(levels: Seq<Level>, side: Map<u64, u64>)
    requires
        is_ascending_listing(levels, side),
        levels.len() > 0,
    ensures
        is_ascending_listing(levels.drop_first(), side.remove(levels[0].0)),
{
    reveal(is_ascending_listing);
    let rest = levels.drop_first();
    let remaining = side.remove(levels[0].0);
    assert forall|i: int| 0 <= i < rest.len() implies remaining.contains_key(
        (#[trigger] rest[i]).0,
    ) && remaining[rest[i].0] == rest[i].1 by {
        assert(rest[i] == levels[i + 1]);
        assert(levels[0].0 < levels[i + 1].0);
    }
    assert forall|i: int, j: int| 0 <= i < j < rest.len() implies (#[trigger] rest[i]).0 < (
    #[trigger] rest[j]).0 by {
        assert(rest[i] == levels[i + 1]);
        assert(rest[j] == levels[j + 1]);
    }
    assert forall|price: u64| remaining.contains_key(price) implies exists|i: int|
        0 <= i < rest.len() && (#[trigger] rest[i]).0 == price by {
        let i = choose|i: int| 0 <= i < levels.len() && (#[trigger] levels[i]).0 == price;
        assert(i > 0);
        assert(rest[i - 1] == levels[i]);
    }
}

/// A listing of every level of a side from the lowest price up is the
/// ascending listing of the side.
pub proof fn lemma_listing_is_ascending(levels: Seq<Level>, side: Map<u64, u64>)
    requires
        side.dom().finite(),
        is_ascending_listing(levels, side),
    ensures
        levels == ascending(side),
        levels.len() == side.dom().len(),
    decreases levels.len(),
{
    if levels.len() == 0 {
        lemma_empty_listing(levels, side);
    } else {
        let first = levels[0];
        let rest = levels.drop_first();
        let remaining = side.remove(first.0);
        assert(lowest_price(side) == first.0 && side[first.0] == first.1 && side.contains_key(
            first.0,
        )) by {
            lemma_first_is_lowest(levels, side);
            lemma_lowest_is_unique(side, first);
        }
        assert(is_ascending_listing(rest, remaining)) by {
            lemma_tail_is_listing(levels, side);
        }
        lemma_listing_is_ascending(rest, remaining);
        assert(levels =~= seq![first] + rest);
    }
}

/// The bid volume and the ask volume over the best levels of a book. The
/// imbalance ratio is the bid volume over the sum of both.
#[derive(Clone, Copy, Debug, PartialEq, Eq, Structural)]
pub struct ImbalanceRatio {
    pub bid_volume: u128,
    pub ask_volume: u128,
}

impl ImbalanceRatio {
    /// What the ratio is a fraction of: the bid and the ask volume together.
    pub open spec fn total_volume(self) -> int {
        self.bid_volume + self.ask_volume
    }

    /// Whether the ratio is defined and lies between zero and one: the
    /// volumes are not both zero, so that the bid volume is at least zero
    /// times and at most once the total.
    pub open spec fn in_unit_range(self) -> bool {
        0 < self.total_volume() && 0 <= self.bid_volume <= self.total_volume()
    }
}

impl BookModel {
    /// The best `n` bids, from the highest price down.
    pub open spec fn top_bids(self, n: nat) -> Seq<Level> {
        first_n(descending(self.bids), n)
    }

    /// The best `n` asks, from the lowest price up.
    pub open spec fn top_asks(self, n: nat) -> Seq<Level> {
        first_n(ascending(self.asks), n)
    }

    /// The bid and ask volumes over the best `n` levels of each side:
    /// `None` where a side has no such level or both volumes are zero.
    pub open spec fn imbalance(self, n: nat) -> Option<ImbalanceRatio> {
        let bid_volume = total_quantity(self.top_bids(n));
        let ask_volume = total_quantity(self.top_asks(n));
        if self.top_bids(n).len() == 0 || self.top_asks(n).len() == 0 || bid_volume + ask_volume
            == 0 {
            None
        } else {
            Some(ImbalanceRatio { bid_volume: bid_volume as u128, ask_volume: ask_volume as u128 })
        }
    }
}

/// A sum of quantities is at most as many times `u64::MAX` as there are
/// levels, and not below zero.
pub proof fn lemma_total_quantity_bound(levels: Seq<Level>)
    ensures
        0 <= total_quantity(levels) <= levels.len() * u64::MAX,
    decreases levels.len(),
{
    if levels.len() > 0 {
        lemma_total_quantity_bound(levels.drop_last());
        assert((levels.len() - 1) * u64::MAX + u64::MAX == levels.len() * u64::MAX)
            by (nonlinear_arith);
    }
}

impl View for OrderBook {
    type V = BookModel;

    closed spec fn view(&self) -> BookModel {
        BookModel { bids: self.bids@, asks: self.asks@ }
    }
}

/// The entry of `side` with the lowest price.
///
/// Trusted: this is `BTreeMap::first_key_value` of the standard library,
/// which returns the entry with the minimum key, and `None` for an empty
/// map.
#[verifier::external_body]
fn first_level(side: &BTreeMap<u64, u64>) -> (level: Option<Level>)
    ensures
        level is None <==> side@.dom().is_empty(),
        level matches Some(l) ==> is_lowest(side@, l),
{
    match side.first_key_value() {
        Some((price, qty)) => Some((*price, *qty)),
        None => None,
    }
}

/// The entry of `side` with the highest price.
///
/// Trusted: this is `BTreeMap::last_key_value` of the standard library,
/// which returns the entry with the maximum key, and `None` for an empty
/// map.
#[verifier::external_body]
fn last_level(side: &BTreeMap<u64, u64>) -> (level: Option<Level>)
    ensures
        level is None <==> side@.dom().is_empty(),
        level matches Some(l) ==> is_highest(side@, l),
{
    match side.last_key_value() {
        Some((price, qty)) => Some((*price, *qty)),
        None => None,
    }
}

/// Applies one level change to `side`.
fn set_side_level(side: &mut BTreeMap<u64, u64>, price: u64, qty: u64)
    requires
        no_empty_level(old(side)@),
    ensures
        final(side)@ == with_level(old(side)@, price, qty),
        no_empty_level(final(side)@),
{
    if qty == 0 {
        side.remove(&price);
    } else {
        side.insert(price, qty);
    }
}

/// The levels of `side` from the lowest price up.
fn list_levels(side: &BTreeMap<u64, u64>) -> (levels: Vec<Level>)
    ensures
        is_ascending_listing(levels@, side@),
{
    let mut levels: Vec<Level> = Vec::new();
    let entries = side.iter();
    let ghost all = entries.remaining();
    proof {
        let keys = all.map_values(|kv: (&u64, &u64)| *kv.0);
        assert(vstd::laws_cmp::obeys_cmp::<u64>());
        assert(vstd::std_specs::btree::key_obeys_cmp_spec::<u64>());
        assert(vstd::std_specs::btree::increasing_seq(keys));
        assert forall|i: int, j: int| 0 <= i < j < all.len() implies *all[i].0 < *all[j].0 by {
            assert(keys[i] == *all[i].0);
            assert(keys[j] == *all[j].0);
            assert(keys[i].cmp_spec(&keys[j]) is Less);
        }
    }
    for entry in it: entries
        invariant
            it.seq() == all,
            levels@.len() == it.index(),
            forall|i: int|
                0 <= i < it.index() ==> #[trigger] levels@[i] == (*all[i].0, *all[i].1),
    {
        levels.push((*entry.0, *entry.1));
    }
    proof {
        reveal(is_ascending_listing);
        assert forall|price: u64| side@.contains_key(price) implies exists|i: int|
            0 <= i < levels@.len() && (#[trigger] levels@[i]).0 == price by {
            assert(all.contains((&price, &side@[price])));
            let i = choose|i: int| 0 <= i < all.len() && all[i] == (&price, &side@[price]);
            assert(levels@[i].0 == price);
        }
    }
    levels
}

/// The sum of the quantities of `levels`.
fn sum_quantities(levels: &Vec<Level>) -> (sum: u128)
    ensures
        sum == total_quantity(levels@),
{
    let mut sum: u128 = 0;
    let mut i: usize = 0;
    while i < levels.len()
        invariant
            i <= levels.len(),
            sum == total_quantity(levels@.take(i as int)),
        decreases levels.len() - i,
    {
        proof {
            let next = levels@.take(i + 1);
            assert(next.drop_last() =~= levels@.take(i as int));
            lemma_total_quantity_bound(next);
            assert(next.len() * u64::MAX <= u64::MAX * u64::MAX) by (nonlinear_arith)
                requires
                    next.len() <= u64::MAX,
            ;
        }
        sum = sum + levels[i].1 as u128;
        i = i + 1;
    }
    proof {
        assert(levels@.take(levels@.len() as int) =~= levels@);
    }
    sum
}

/// Applies `levels` to `side` in order and says whether every level could
/// be read.
fn apply_levels(side: &mut BTreeMap<u64, u64>, levels: &Vec<[String; 2]>, scaler: &Scaler) -> (complete:
    bool)
    requires
        no_empty_level(old(side)@),
    ensures
        final(side)@ == with_levels(old(side)@, levels@, levels@.len() as int, scaler@),
        complete <==> unreadable_levels(levels@, levels@.len() as int, scaler@) == 0,
        no_empty_level(final(side)@),
{
    let mut complete = true;
    let mut i: usize = 0;
    while i < levels.len()
        invariant
            i <= levels.len(),
            side@ == with_levels(old(side)@, levels@, i as int, scaler@),
            complete <==> unreadable_levels(levels@, i as int, scaler@) == 0,
            0 <= unreadable_levels(levels@, i as int, scaler@),
            no_empty_level(side@),
        decreases levels.len() - i,
    {
        let level = &levels[i];
        let price = scaler.price_to_ticks(level[0].as_str());
        let qty = scaler.qty_to_ticks(level[1].as_str());
        match (price, qty) {
            (Some(p), Some(q)) => {
                set_side_level(side, p, q);
            },
            _ => {
                complete = false;
            },
        }
        i = i + 1;
    }
    complete
}

impl OrderBook {
    #[verifier::type_invariant]
    closed spec fn no_empty_levels(&self) -> bool {
        no_empty_level(self.bids@) && no_empty_level(self.asks@)
    }

    /// A book without levels.
    pub fn new() -> (book: Self)
        ensures
            book@.bids == Map::<u64, u64>::empty(),
            book@.asks == Map::<u64, u64>::empty(),
            book@.well_formed(),
    {
        Self { bids: BTreeMap::new(), asks: BTreeMap::new() }
    }

    /// Sets the quantity resting at a bid price; zero removes the price.
    pub fn set_bid(&mut self, price: u64, qty: u64)
        ensures
            final(self)@.bids == with_level(old(self)@.bids, price, qty),
            final(self)@.asks == old(self)@.asks,
            final(self)@.well_formed(),
    {
        proof {
            use_type_invariant(&*self);
        }
        let mut side: BTreeMap<u64, u64> = BTreeMap::new();
        std::mem::swap(&mut self.bids, &mut side);
        set_side_level(&mut side, price, qty);
        self.bids = side;
    }

    /// Sets the quantity resting at an ask price; zero removes the price.
    pub fn set_ask(&mut self, price: u64, qty: u64)
        ensures
            final(self)@.asks == with_level(old(self)@.asks, price, qty),
            final(self)@.bids == old(self)@.bids,
            final(self)@.well_formed(),
    {
        proof {
            use_type_invariant(&*self);
        }
        let mut side: BTreeMap<u64, u64> = BTreeMap::new();
        std::mem::swap(&mut self.asks, &mut side);
        set_side_level(&mut side, price, qty);
        self.asks = side;
    }

    /// The highest bid with its quantity, `None` where there is no bid.
    pub fn best_bid(&self) -> (best: Option<Level>)
        ensures
            best == self@.best_bid(),
            best matches Some(l) ==> is_highest(self@.bids, l) && l.1 != 0,
            self@.well_formed(),
    {
        proof {
            use_type_invariant(self);
        }
        let best = last_level(&self.bids);
        proof {
            if let Some(l) = best {
                lemma_highest_is_unique(self.bids@, l);
            }
        }
        best
    }

    /// The lowest ask with its quantity, `None` where there is no ask.
    pub fn best_ask(&self) -> (best: Option<Level>)
        ensures
            best == self@.best_ask(),
            best matches Some(l) ==> is_lowest(self@.asks, l) && l.1 != 0,
            self@.well_formed(),
    {
        proof {
            use_type_invariant(self);
        }
        let best = first_level(&self.asks);
        proof {
            if let Some(l) = best {
                lemma_lowest_is_unique(self.asks@, l);
            }
        }
        best
    }

    /// The lowest ask less the highest bid, in ticks: `None` where a side
    /// has no level, zero where the book is crossed.
    pub fn spread(&self) -> (spread: Option<u64>)
        ensures
            spread == self@.spread(),
    {
        match (self.best_bid(), self.best_ask()) {
            (Some((bid, _)), Some((ask, _))) => Some(ask.saturating_sub(bid)),
            _ => None,
        }
    }

    /// Half the sum of the lowest ask and the highest bid, in ticks, rounded
    /// down: `None` where a side has no level.
    pub fn mid_price(&self) -> (mid: Option<u64>)
        ensures
            mid == self@.mid_price(),
    {
        match (self.best_bid(), self.best_ask()) {
            (Some((bid, _)), Some((ask, _))) => {
                let sum: u128 = ask as u128 + bid as u128;
                Some((sum / 2) as u64)
            },
            _ => None,
        }
    }

    /// The best `n` levels of each side, bids first: bids from the highest
    /// price down, asks from the lowest price up. A side with fewer than
    /// `n` levels gives them all.
    pub fn top_n_depth(&self, n: usize) -> (depth: (Vec<Level>, Vec<Level>))
        ensures
            depth.0@ == self@.top_bids(n as nat),
            depth.1@ == self@.top_asks(n as nat),
    {
        let all_bids = list_levels(&self.bids);
        let all_asks = list_levels(&self.asks);
        proof {
            lemma_listing_is_ascending(all_bids@, self.bids@);
            lemma_listing_is_ascending(all_asks@, self.asks@);
        }
        let mut bids: Vec<Level> = Vec::new();
        let mut at: usize = all_bids.len();
        while at > 0 && bids.len() < n
            invariant
                at <= all_bids.len(),
                bids@.len() == all_bids.len() - at,
                bids@.len() <= n,
                forall|k: int|
                    0 <= k < bids@.len() ==> #[trigger] bids@[k] == all_bids@[all_bids.len() - 1
                        - k],
            decreases at,
        {
            at = at - 1;
            bids.push(all_bids[at]);
        }
        let mut asks: Vec<Level> = Vec::new();
        let mut i: usize = 0;
        while i < all_asks.len() && i < n
            invariant
                i <= all_asks.len(),
                i <= n,
                asks@ == all_asks@.take(i as int),
            decreases all_asks.len() - i,
        {
            asks.push(all_asks[i]);
            i = i + 1;
            assert(asks@ =~= all_asks@.take(i as int));
        }
        proof {
            assert(bids@ =~= first_n(all_bids@.reverse(), n as nat));
            assert(all_asks@.take(all_asks@.len() as int) =~= all_asks@);
        }
        (bids, asks)
    }

    /// The bid and the ask volume over the best `levels` levels of each
    /// side: `None` where a side has no such level or both volumes are
    /// zero. The imbalance ratio they stand for lies between zero and one.
    pub fn imbalance_ratio(&self, levels: usize) -> (ratio: Option<ImbalanceRatio>)
        ensures
            ratio == self@.imbalance(levels as nat),
            ratio matches Some(r) ==> r.in_unit_range(),
    {
        let (bids, asks) = self.top_n_depth(levels);
        if bids.len() == 0 || asks.len() == 0 {
            return None;
        }
        proof {
            lemma_total_quantity_bound(bids@);
            lemma_total_quantity_bound(asks@);
            assert(bids@.len() * u64::MAX <= u64::MAX * u64::MAX) by (nonlinear_arith)
                requires
                    bids@.len() <= u64::MAX,
            ;
            assert(asks@.len() * u64::MAX <= u64::MAX * u64::MAX) by (nonlinear_arith)
                requires
                    asks@.len() <= u64::MAX,
            ;
        }
        let bid_volume = sum_quantities(&bids);
        let ask_volume = sum_quantities(&asks);
        if bid_volume == 0 && ask_volume == 0 {
            return None;
        }
        Some(ImbalanceRatio { bid_volume, ask_volume })
    }

    /// Applies the level changes of `update`, bids first, each side in the
    /// order given. A level whose price or quantity cannot be read is left
    /// out. Returns whether every level could be read.
    pub fn apply_update(&mut self, update: &DepthUpdate, scaler: &Scaler) -> (complete: bool)
        ensures
            final(self)@ == old(self)@.after_update(*update, scaler@),
            complete <==> unreadable_levels(update.b@, update.b@.len() as int, scaler@) == 0
                && unreadable_levels(update.a@, update.a@.len() as int, scaler@) == 0,
            final(self)@.well_formed(),
    {
        proof {
            use_type_invariant(&*self);
        }
        let mut bids: BTreeMap<u64, u64> = BTreeMap::new();
        std::mem::swap(&mut self.bids, &mut bids);
        let bids_complete = apply_levels(&mut bids, &update.b, scaler);
        self.bids = bids;
        let mut asks: BTreeMap<u64, u64> = BTreeMap::new();
        std::mem::swap(&mut self.asks, &mut asks);
        let asks_complete = apply_levels(&mut asks, &update.a, scaler);
        self.asks = asks;
        bids_complete && asks_complete
    }

    /// The book that a snapshot describes: its levels applied to an empty
    /// book, each side in the order given. A level whose price or quantity
    /// cannot be read is left out.
    pub fn from_snapshot(snapshot: DepthSnapshot, scaler: &Scaler) -> (book: Self)
        ensures
            book@ == BookModel::of_snapshot(snapshot, scaler@),
            book@.well_formed(),
    {
        let mut bids: BTreeMap<u64, u64> = BTreeMap::new();
        let mut asks: BTreeMap<u64, u64> = BTreeMap::new();
        let _bids_complete = apply_levels(&mut bids, &snapshot.bids, scaler);
        let _asks_complete = apply_levels(&mut asks, &snapshot.asks, scaler);
        Self { bids, asks }
    }
}

impl Clone for OrderBook {
    fn clone(&self) -> (copy: Self)
        ensures
            copy@ == self@,
    {
        proof {
            use_type_invariant(self);
        }
        Self { bids: self.bids.clone(), asks: self.asks.clone() }
    }
}

} // verus!
