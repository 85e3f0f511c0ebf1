//! Conversion between decimal prices and quantities and integer counts of
//! ticks and steps.

use vstd::prelude::*;
use crate::decimal::{
    decimal_of_text, exact_product, lemma_exact_division, lemma_pow10_adds, lemma_pow10_values,
    multiplies_exactly, pow10, product, quotient, whole_number, Decimal, DecimalModel,
    MANTISSA_LIMIT, MAX_SCALE,
};

verus! {

/// What becomes of a value that is not a whole number of ticks or steps.
#[derive(Clone, Copy, Debug, PartialEq, Eq, Structural)]
pub enum Alignment {
    /// It is rounded to the nearest whole number, halves to the even one.
    Round,
    /// It has no ticks.
    Reject,
}

/// Converts prices to ticks and quantities to steps, and back.
#[derive(Clone, Copy, Debug)]
pub struct Scaler {
    price_scale: u64,
    qty_scale: u64,
    tick_size: Decimal,
    step_size: Decimal,
    alignment: Alignment,
}

/// The mathematical content of a [`Scaler`].
pub struct ScalerModel {
    pub tick_size: DecimalModel,
    pub step_size: DecimalModel,
    pub alignment: Alignment,
}

impl View for Scaler {
    type V = ScalerModel;

    closed spec fn view(&self) -> ScalerModel {
        ScalerModel {
            tick_size: self.tick_size@,
            step_size: self.step_size@,
            alignment: self.alignment,
        }
    }
}

/// The power of ten that shifts past the decimals of `unit`: `10^e` for the
/// least scale `e` of `unit`, or `u64::MAX` where that is too large.
pub open spec fn decimal_scale(unit: DecimalModel) -> u64 {
    if pow10(unit.least_scale()) <= u64::MAX {
        pow10(unit.least_scale()) as u64
    } else {
        u64::MAX
    }
}

/// The count that a quotient stands for: the whole number nearest to it,
/// halves going to the even one. There is none for a quotient below zero,
/// for one that is not whole where unaligned values are rejected, and for
/// one that is above `u64::MAX`.
pub open spec fn whole_count(q: DecimalModel, alignment: Alignment) -> Option<u64> {
    if q.mantissa < 0 || (alignment == Alignment::Reject && !q.is_whole()) || q.rounded()
        > u64::MAX {
        None
    } else {
        Some(q.rounded() as u64)
    }
}

/// How many units of size `unit` make up `value`.
pub open spec fn count_of(value: DecimalModel, unit: DecimalModel, alignment: Alignment) -> Option<
    u64,
> {
    match quotient(value, unit) {
        Some(q) => whole_count(q, alignment),
        None => None,
    }
}

/// How many units of size `unit` make up the number written in `text`.
pub open spec fn count_of_text(text: Seq<char>, unit: DecimalModel, alignment: Alignment) -> Option<
    u64,
> {
    match decimal_of_text(text) {
        Some(value) => count_of(value, unit, alignment),
        None => None,
    }
}

/// Whether `count` units of size `unit` can be held as a decimal as they
/// stand.
pub open spec fn amount_fits(count: u64, unit: DecimalModel) -> bool {
    count == 0 || unit.mantissa == 0 || multiplies_exactly(whole_number(count as int), unit)
}

/// `count` units of size `unit`, where that fits.
pub open spec fn amount_of(count: u64, unit: DecimalModel) -> DecimalModel {
    if count == 0 || unit.mantissa == 0 {
        whole_number(0)
    } else {
        exact_product(whole_number(count as int), unit)
    }
}

/// `10^e` for the least scale `e` of `unit`, held at `u64::MAX`.
fn scale_of(unit: &Decimal) -> (scale: u64)
    ensures
        scale == decimal_scale(unit@),
{
    let places = unit.least_scale();
    let mut scale: u64 = 1;
    let mut i: u32 = 0;
    proof {
        lemma_pow10_values();
    }
    while i < places
        invariant
            i <= places,
            scale == if pow10(i as nat) <= u64::MAX {
                pow10(i as nat) as u64
            } else {
                u64::MAX
            },
            forall|n: nat| 0 < #[trigger] pow10(n),
            forall|a: nat, b: nat| a <= b ==> #[trigger] pow10(a) <= #[trigger] pow10(b),
        decreases places - i,
    {
        scale = if scale > u64::MAX / 10 {
            u64::MAX
        } else {
            scale * 10
        };
        i = i + 1;
        assert(pow10(i as nat) == 10 * pow10((i - 1) as nat));
    }
    scale
}

impl Scaler {
    /// A scaler for the given tick and step sizes that rounds values off
    /// the grid.
    pub fn new(tick_size: Decimal, step_size: Decimal) -> (scaler: Self)
        ensures
            scaler@.tick_size == tick_size@,
            scaler@.step_size == step_size@,
            scaler@.alignment == Alignment::Round,
    {
        Self::with_alignment(tick_size, step_size, Alignment::Round)
    }

    /// A scaler for the given tick and step sizes and the given treatment
    /// of values off the grid.
    pub fn with_alignment(tick_size: Decimal, step_size: Decimal, alignment: Alignment) -> (scaler:
        Self)
        ensures
            scaler@.tick_size == tick_size@,
            scaler@.step_size == step_size@,
            scaler@.alignment == alignment,
    {
        let price_scale = scale_of(&tick_size);
        let qty_scale = scale_of(&step_size);
        Self { price_scale, qty_scale, tick_size, step_size, alignment }
    }

    #[verifier::type_invariant]
    closed spec fn well_formed(&self) -> bool {
        &&& self.price_scale == decimal_scale(self.tick_size@)
        &&& self.qty_scale == decimal_scale(self.step_size@)
    }

    /// The smallest price increment.
    pub fn tick_size(&self) -> (tick: Decimal)
        ensures
            tick@ == self@.tick_size,
            tick@.representable(),
    {
        let tick = self.tick_size;
        let _scale: u32 = tick.scale();
        tick
    }

    /// The smallest quantity increment.
    pub fn step_size(&self) -> (step: Decimal)
        ensures
            step@ == self@.step_size,
            step@.representable(),
    {
        let step = self.step_size;
        let _scale: u32 = step.scale();
        step
    }

    /// The power of ten that shifts past the decimals of the tick size.
    pub fn price_scale(&self) -> (scale: u64)
        ensures
            scale == decimal_scale(self@.tick_size),
    {
        proof {
            use_type_invariant(self);
        }
        self.price_scale
    }

    /// The power of ten that shifts past the decimals of the step size.
    pub fn qty_scale(&self) -> (scale: u64)
        ensures
            scale == decimal_scale(self@.step_size),
    {
        proof {
            use_type_invariant(self);
        }
        self.qty_scale
    }

    /// What becomes of values off the grid.
    pub fn alignment(&self) -> (alignment: Alignment)
        ensures
            alignment == self@.alignment,
    {
        self.alignment
    }

    /// The count that the quotient `q` of a value by its unit stands for.
    pub fn count_from_quotient(q: &Decimal, alignment: Alignment) -> (count: Option<u64>)
        ensures
            count == whole_count(q@, alignment),
    {
        proof {
            lemma_pow10_values();
            if q@.mantissa >= 0 && q@.is_whole() {
                lemma_rounded_of_whole(q@);
            }
        }
        if q.is_integer() {
            q.to_u64()
        } else {
            match alignment {
                Alignment::Reject => None,
                Alignment::Round => {
                    if q.is_negative() {
                        None
                    } else {
                        q.round().to_u64()
                    }
                },
            }
        }
    }

    /// How many units of size `unit` make up `value`: none where the unit
    /// is zero, the division overflows, or the quotient has no count.
    pub fn count_units(value: &Decimal, unit: &Decimal, alignment: Alignment) -> (count: Option<
        u64,
    >)
        ensures
            count == count_of(value@, unit@, alignment),
    {
        match value.checked_div(unit) {
            Some(q) => Self::count_from_quotient(&q, alignment),
            None => None,
        }
    }

    /// The price written in `price` as a count of ticks: none where the
    /// text holds no decimal number or the number has no count.
    pub fn price_to_ticks(&self, price: &str) -> (ticks: Option<u64>)
        ensures
            ticks == count_of_text(price@, self@.tick_size, self@.alignment),
            decimal_of_text(price@) is None ==> ticks is None,
    {
        match Decimal::parse(price) {
            Some(value) => Self::count_units(&value, &self.tick_size, self.alignment),
            None => None,
        }
    }

    /// The quantity written in `qty` as a count of steps: none where the
    /// text holds no decimal number or the number has no count.
    pub fn qty_to_ticks(&self, qty: &str) -> (ticks: Option<u64>)
        ensures
            ticks == count_of_text(qty@, self@.step_size, self@.alignment),
            decimal_of_text(qty@) is None ==> ticks is None,
    {
        match Decimal::parse(qty) {
            Some(value) => Self::count_units(&value, &self.step_size, self.alignment),
            None => None,
        }
    }

    /// The price of `ticks` ticks: exactly `ticks` times the tick size.
    pub fn ticks_to_price(&self, ticks: u64) -> (price: Decimal)
        requires
            amount_fits(ticks, self@.tick_size),
        ensures
            price@ == amount_of(ticks, self@.tick_size),
            price@.is_multiple(ticks as int, self@.tick_size),
    {
        proof {
            lemma_amount_is_multiple(ticks, self@.tick_size);
        }
        match Decimal::from_u64(ticks).checked_mul(&self.tick_size) {
            Some(price) => price,
            None => Decimal::zero(),
        }
    }

    /// The quantity of `ticks` steps: exactly `ticks` times the step size.
    pub fn ticks_to_qty(&self, ticks: u64) -> (qty: Decimal)
        requires
            amount_fits(ticks, self@.step_size),
        ensures
            qty@ == amount_of(ticks, self@.step_size),
            qty@.is_multiple(ticks as int, self@.step_size),
    {
        proof {
            lemma_amount_is_multiple(ticks, self@.step_size);
        }
        match Decimal::from_u64(ticks).checked_mul(&self.step_size) {
            Some(qty) => qty,
            None => Decimal::zero(),
        }
    }

    /// The price of `ticks` ticks, or `None` where it cannot be held as it
    /// stands.
    pub fn try_ticks_to_price(&self, ticks: u64) -> (price: Option<Decimal>)
        ensures
            price is Some <==> amount_fits(ticks, self@.tick_size),
            price matches Some(p) ==> p@ == amount_of(ticks, self@.tick_size),
    {
        if fits(ticks, &self.tick_size) {
            Some(self.ticks_to_price(ticks))
        } else {
            None
        }
    }

    /// The quantity of `ticks` steps, or `None` where it cannot be held as
    /// it stands.
    pub fn try_ticks_to_qty(&self, ticks: u64) -> (qty: Option<Decimal>)
        ensures
            qty is Some <==> amount_fits(ticks, self@.step_size),
            qty matches Some(q) ==> q@ == amount_of(ticks, self@.step_size),
    {
        if fits(ticks, &self.step_size) {
            Some(self.ticks_to_qty(ticks))
        } else {
            None
        }
    }
}

/// Whether `count` units of size `unit` can be held as they stand.
fn fits(count: u64, unit: &Decimal) -> (fits: bool)
    ensures
        fits == amount_fits(count, unit@),
{
    let m = unit.mantissa();
    if count == 0 || m == 0 {
        return true;
    }
    let magnitude: u128 = if m < 0 {
        (-m) as u128
    } else {
        m as u128
    };
    let bound: u128 = (MANTISSA_LIMIT - 1) as u128 / magnitude;
    proof {
        lemma_product_bound(count as int, m as int, magnitude as int, bound as int);
    }
    count as u128 <= bound
}

proof fn lemma_product_bound(count: int, m: int, magnitude: int, bound: int)
    requires
        count > 0,
        magnitude > 0,
        magnitude == if m < 0 {
            -m
        } else {
            m
        },
        bound == (MANTISSA_LIMIT - 1) / magnitude,
    ensures
        (count <= bound) <==> (-MANTISSA_LIMIT < count * m < MANTISSA_LIMIT),
{
    let limit = MANTISSA_LIMIT - 1;
    vstd::arithmetic::div_mod::lemma_fundamental_div_mod(limit, magnitude);
    vstd::arithmetic::div_mod::lemma_mod_pos_bound(limit, magnitude);
    assert(count * magnitude == if m < 0 {
        -(count * m)
    } else {
        count * m
    }) by (nonlinear_arith)
        requires
            magnitude == if m < 0 {
                -m
            } else {
                m
            },
    ;
    if count <= bound {
        assert(count * magnitude <= bound * magnitude) by (nonlinear_arith)
            requires
                count <= bound,
                magnitude > 0,
        ;
        assert(bound * magnitude == magnitude * bound) by (nonlinear_arith);
    } else {
        assert(count * magnitude >= (bound + 1) * magnitude) by (nonlinear_arith)
            requires
                count >= bound + 1,
                magnitude > 0,
        ;
        assert((bound + 1) * magnitude == magnitude * bound + magnitude) by (nonlinear_arith);
    }
}

/// A value of `k` units that is written with at least as many decimals as
/// the unit counts as exactly `k` units, whatever is done with values off
/// the grid, and `k` units are worth the value again.
pub proof fn lemma_round_trip(
    value: DecimalModel,
    unit: DecimalModel,
    k: u64,
    alignment: Alignment,
)
    requires
        value.representable(),
        unit.representable(),
        unit.mantissa > 0,
        value.scale >= unit.scale,
        value.is_multiple(k as int, unit),
    ensures
        count_of(value, unit, alignment) == Some(k),
        amount_fits(k, unit),
        amount_of(k, unit).same_value(value),
        product(whole_number(k as int), unit) == Some(amount_of(k, unit)),
{
    lemma_pow10_values();
    lemma_amount_is_multiple(k, unit);
    let d = (value.scale - unit.scale) as nat;
    let shift = pow10(d);
    let pu = pow10(unit.scale);
    let pv = pow10(value.scale);
    let vm = value.mantissa;
    let um = unit.mantissa;
    lemma_pow10_adds(unit.scale, d);
    assert(pv == pu * shift);
    assert(vm == k * um * shift) by (nonlinear_arith)
        requires
            vm * pu == k * um * pv,
            pv == pu * shift,
            pu > 0,
    ;
    if vm == 0 {
        assert(k == 0) by (nonlinear_arith)
            requires
                0 == k * um * shift,
                um > 0,
                shift > 0,
                k >= 0,
        ;
        assert(0int % 1 == 0 && 0int / 1 == 0);
        assert(whole_number(0).rounded() == 0);
    } else {
        assert(vm == (k * shift) * um) by (nonlinear_arith)
            requires
                vm == k * um * shift,
        ;
        lemma_exact_division(vm, um, k * shift);
        lemma_exact_division(k * shift, shift, k as int);
        assert(k != 0);
        assert(0 < k * um <= vm) by (nonlinear_arith)
            requires
                vm == k * um * shift,
                k > 0,
                um > 0,
                shift >= 1,
        ;
        assert(k * shift >= 0) by (nonlinear_arith)
            requires
                k >= 0,
                shift > 0,
        ;
        let q = DecimalModel { mantissa: k * shift, scale: d };
        assert(quotient(value, unit) == Some(q));
        assert(q.is_whole());
        lemma_rounded_of_whole(q);
        assert(q.rounded() == k);
        assert((k * um) * pv == vm * pu) by (nonlinear_arith)
            requires
                vm * pu == k * um * pv,
        ;
    }
}

/// A price of `k` ticks that is written with at least as many decimals as
/// the tick size converts to `k` ticks, and `k` ticks convert back to a
/// price of the same value.
pub proof fn lemma_price_round_trip(
    scaler: ScalerModel,
    text: Seq<char>,
    price: DecimalModel,
    k: u64,
)
    requires
        price.representable(),
        scaler.tick_size.representable(),
        scaler.tick_size.mantissa > 0,
        price.scale >= scaler.tick_size.scale,
        price.is_multiple(k as int, scaler.tick_size),
    ensures
        decimal_of_text(text) == Some(price) ==> count_of_text(
            text,
            scaler.tick_size,
            scaler.alignment,
        ) == Some(k),
        amount_fits(k, scaler.tick_size),
        amount_of(k, scaler.tick_size).same_value(price),
{
    lemma_round_trip(price, scaler.tick_size, k, scaler.alignment);
}

/// A quantity of `k` steps that is written with at least as many decimals
/// as the step size converts to `k` steps, and `k` steps convert back to a
/// quantity of the same value.
pub proof fn lemma_qty_round_trip(
    scaler: ScalerModel,
    text: Seq<char>,
    qty: DecimalModel,
    k: u64,
)
    requires
        qty.representable(),
        scaler.step_size.representable(),
        scaler.step_size.mantissa > 0,
        qty.scale >= scaler.step_size.scale,
        qty.is_multiple(k as int, scaler.step_size),
    ensures
        decimal_of_text(text) == Some(qty) ==> count_of_text(
            text,
            scaler.step_size,
            scaler.alignment,
        ) == Some(k),
        amount_fits(k, scaler.step_size),
        amount_of(k, scaler.step_size).same_value(qty),
{
    lemma_round_trip(qty, scaler.step_size, k, scaler.alignment);
}

/// A whole number that is not below zero rounds to itself.
pub proof fn lemma_rounded_of_whole(q: DecimalModel)
    requires
        q.mantissa >= 0,
        q.is_whole(),
    ensures
        q.rounded() == q.mantissa / pow10(q.scale),
{
    lemma_pow10_values();
}

/// `count` units of size `unit` are `count` times `unit`.
pub proof fn lemma_amount_is_multiple(count: u64, unit: DecimalModel)
    ensures
        amount_of(count, unit).is_multiple(count as int, unit),
        amount_fits(count, unit) ==> product(whole_number(count as int), unit) == Some(
            amount_of(count, unit),
        ),
{
    let amount = amount_of(count, unit);
    if count == 0 || unit.mantissa == 0 {
        assert(amount.mantissa * pow10(unit.scale) == 0);
        assert(count * unit.mantissa == 0) by (nonlinear_arith)
            requires
                count == 0 || unit.mantissa == 0,
        ;
        assert(count * unit.mantissa * pow10(amount.scale) == 0) by (nonlinear_arith)
            requires
                count * unit.mantissa == 0,
        ;
    } else {
        assert(amount.scale == unit.scale);
    }
}


} // verus!
