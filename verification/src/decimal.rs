//! Exact decimal numbers of the form `m / 10^e`, held as plain integers.
//!
//! A [`Decimal`] carries the mantissa and the scale of a 96-bit decimal.
//! What can be said of a decimal in a line or two (whether it is whole, what
//! it rounds to) is computed and proved here. Parsing, division,
//! multiplication, addition and comparison are done by the decimal
//! arithmetic of the `rust_decimal` crate, behind functions whose contracts
//! are taken on trust.

use std::str::FromStr;
use vstd::prelude::*;
use vstd::std_specs::cmp::PartialEqSpecImpl;

verus! {

/// The largest scale a decimal can have.
pub const MAX_SCALE: u32 = 28;

/// Mantissas are strictly below this bound in magnitude: 2^96.
pub const MANTISSA_LIMIT: i128 = 79_228_162_514_264_337_593_543_950_336;

/// The mathematical content of a [`Decimal`]: the number
/// `mantissa / 10^scale`.
pub struct DecimalModel {
    pub mantissa: int,
    pub scale: nat,
}

/// `10^n`.
pub open spec fn pow10(n: nat) -> int
    decreases n,
{
    if n == 0 {
        1
    } else {
        10 * pow10((n - 1) as nat)
    }
}

impl DecimalModel {
    /// Whether a 96-bit decimal can hold this number as it stands.
    pub open spec fn representable(self) -> bool {
        -MANTISSA_LIMIT < self.mantissa < MANTISSA_LIMIT && self.scale <= MAX_SCALE
    }

    /// Whether this number and `other` are the same number, whatever their
    /// scales: `m1 / 10^e1 == m2 / 10^e2`.
    pub open spec fn same_value(self, other: DecimalModel) -> bool {
        self.mantissa * pow10(other.scale) == other.mantissa * pow10(self.scale)
    }

    /// Whether this number is at most `other`.
    pub open spec fn at_most(self, other: DecimalModel) -> bool {
        self.mantissa * pow10(other.scale) <= other.mantissa * pow10(self.scale)
    }

    /// Whether this number is `k` times `unit`, for the integer `k`.
    pub open spec fn is_multiple(self, k: int, unit: DecimalModel) -> bool {
        self.mantissa * pow10(unit.scale) == k * unit.mantissa * pow10(self.scale)
    }

    /// Whether this number has no fractional part.
    pub open spec fn is_whole(self) -> bool {
        self.mantissa % pow10(self.scale) == 0
    }

    /// The integer nearest to this number; a number halfway between two
    /// integers goes to the even one.
    pub open spec fn rounded(self) -> int {
        let unit = pow10(self.scale);
        let magnitude = if self.mantissa < 0 {
            -self.mantissa
        } else {
            self.mantissa
        };
        let whole = magnitude / unit;
        let rest = magnitude % unit;
        let nearest = if 2 * rest > unit || (2 * rest == unit && whole % 2 == 1) {
            whole + 1
        } else {
            whole
        };
        if self.mantissa < 0 {
            -nearest
        } else {
            nearest
        }
    }

    /// The integer part of this number as a `u64`: `None` for a number
    /// below zero and for one whose integer part does not fit.
    pub open spec fn whole_part(self) -> Option<u64> {
        if self.mantissa < 0 || self.mantissa / pow10(self.scale) > u64::MAX {
            None
        } else {
            Some((self.mantissa / pow10(self.scale)) as u64)
        }
    }

    /// The scale that is left when trailing zeros of the fraction are
    /// struck off: the least scale at which this number can be written.
    pub open spec fn least_scale(self) -> nat
        decreases self.scale,
    {
        if self.mantissa == 0 || self.scale == 0 {
            0
        } else if self.mantissa % 10 == 0 {
            (DecimalModel { mantissa: self.mantissa / 10, scale: (self.scale - 1) as nat }).least_scale()
        } else {
            self.scale
        }
    }
}

/// The decimal for the integer `n`.
pub open spec fn whole_number(n: int) -> DecimalModel {
    DecimalModel { mantissa: n, scale: 0 }
}

/// What `rust_decimal` reads out of a piece of text, `None` where it does
/// not take the text for a decimal number.
pub uninterp spec fn decimal_of_text(text: Seq<char>) -> Option<DecimalModel>;

/// What `rust_decimal` gives for `a / b` where the quotient has to be worked
/// out digit by digit: `None` where it overflows.
pub uninterp spec fn long_quotient(a: DecimalModel, b: DecimalModel) -> Option<DecimalModel>;

/// What `rust_decimal` gives for `a * b` where the exact product does not
/// fit and has to be rescaled: `None` where it overflows.
pub uninterp spec fn rescaled_product(a: DecimalModel, b: DecimalModel) -> Option<DecimalModel>;

/// What `rust_decimal` gives for `a + b`: `None` where it overflows.
pub uninterp spec fn decimal_sum(a: DecimalModel, b: DecimalModel) -> Option<DecimalModel>;

/// Whether `a / b` comes out of the division of the mantissas alone: neither
/// is zero, the dividend's mantissa is a multiple of the divisor's, and the
/// dividend's scale is not the smaller one.
pub open spec fn divides_evenly(a: DecimalModel, b: DecimalModel) -> bool {
    a.mantissa != 0 && b.mantissa != 0 && a.mantissa % b.mantissa == 0 && a.scale >= b.scale
}

/// The quotient of the mantissas at the difference of the scales.
pub open spec fn even_quotient(a: DecimalModel, b: DecimalModel) -> DecimalModel {
    DecimalModel { mantissa: a.mantissa / b.mantissa, scale: (a.scale - b.scale) as nat }
}

/// Whether `a * b` can be held as it stands: neither factor is zero, the
/// product of the mantissas fits in 96 bits and the scales add up to at
/// most 28.
pub open spec fn multiplies_exactly(a: DecimalModel, b: DecimalModel) -> bool {
    a.mantissa != 0 && b.mantissa != 0 && exact_product(a, b).representable()
}

/// The product of the mantissas at the sum of the scales.
pub open spec fn exact_product(a: DecimalModel, b: DecimalModel) -> DecimalModel {
    DecimalModel { mantissa: a.mantissa * b.mantissa, scale: a.scale + b.scale }
}

/// How `rust_decimal` writes a decimal: the digits of the mantissa with the
/// decimal point put in at the scale.
pub uninterp spec fn decimal_text(d: DecimalModel) -> Seq<char>;

/// The quotient `a / b` of checked decimal division. There is none for a
/// zero divisor. A zero dividend gives plain zero. Where the mantissas
/// divide evenly the quotient is theirs at the difference of the scales.
/// Every other quotient is worked out digit by digit.
pub open spec fn quotient(a: DecimalModel, b: DecimalModel) -> Option<DecimalModel> {
    if b.mantissa == 0 {
        None
    } else if a.mantissa == 0 {
        Some(whole_number(0))
    } else if divides_evenly(a, b) {
        Some(even_quotient(a, b))
    } else {
        long_quotient(a, b)
    }
}

/// The product `a * b` of checked decimal multiplication. A zero factor
/// gives plain zero. Where the product can be held as it stands it is
/// exact. Every other product is rescaled.
pub open spec fn product(a: DecimalModel, b: DecimalModel) -> Option<DecimalModel> {
    if a.mantissa == 0 || b.mantissa == 0 {
        Some(whole_number(0))
    } else if multiplies_exactly(a, b) {
        Some(exact_product(a, b))
    } else {
        rescaled_product(a, b)
    }
}

/// An exact decimal number: a mantissa below 2^96 in magnitude and a scale
/// of at most 28.
#[derive(Clone, Copy, Debug)]
pub struct Decimal {
    mantissa: i128,
    scale: u32,
}

impl View for Decimal {
    type V = DecimalModel;

    closed spec fn view(&self) -> DecimalModel {
        DecimalModel { mantissa: self.mantissa as int, scale: self.scale as nat }
    }
}

impl PartialEq for Decimal {
    /// Decimals are equal where they stand for the same number, whatever
    /// their scales.
    fn eq(&self, other: &Self) -> (same: bool) {
        self.same_value(other)
    }
}

impl PartialEqSpecImpl for Decimal {
    open spec fn obeys_eq_spec() -> bool {
        true
    }

    open spec fn eq_spec(&self, other: &Self) -> bool {
        self@.same_value(other@)
    }
}

/// The views of an optional decimal.
pub open spec fn view_of(d: Option<Decimal>) -> Option<DecimalModel> {
    match d {
        Some(d) => Some(d@),
        None => None,
    }
}

/// `10^28`, the largest power of ten a scale stands for.
pub proof fn lemma_pow10_values()
    ensures
        pow10(0) == 1,
        pow10(1) == 10,
        pow10(28) == 10_000_000_000_000_000_000_000_000_000int,
        forall|n: nat| 0 < #[trigger] pow10(n),
        forall|a: nat, b: nat| a <= b ==> #[trigger] pow10(a) <= #[trigger] pow10(b),
{
    reveal_with_fuel(pow10, 30);
    assert forall|n: nat| 0 < #[trigger] pow10(n) by {
        lemma_pow10_positive(n);
    }
    assert forall|a: nat, b: nat| a <= b implies #[trigger] pow10(a) <= #[trigger] pow10(b) by {
        lemma_pow10_monotone(a, b);
    }
}

proof fn lemma_pow10_positive(n: nat)
    ensures
        0 < pow10(n),
    decreases n,
{
    if n > 0 {
        lemma_pow10_positive((n - 1) as nat);
    }
}

proof fn lemma_pow10_monotone(a: nat, b: nat)
    requires
        a <= b,
    ensures
        pow10(a) <= pow10(b),
    decreases b,
{
    lemma_pow10_positive(a);
    if a < b {
        lemma_pow10_monotone(a, (b - 1) as nat);
    }
}

/// `10^(a + b) == 10^a * 10^b`.
pub proof fn lemma_pow10_adds(a: nat, b: nat)
    ensures
        pow10(a + b) == pow10(a) * pow10(b),
    decreases b,
{
    if b == 0 {
    } else {
        lemma_pow10_adds(a, (b - 1) as nat);
        assert(pow10(a + b) == 10 * pow10((a + b - 1) as nat));
        assert(10 * (pow10(a) * pow10((b - 1) as nat)) == pow10(a) * (10 * pow10((b - 1) as nat)))
            by (nonlinear_arith);
    }
}

/// `10^scale` for a scale that a decimal can have.
pub fn power_of_ten(scale: u32) -> (p: u128)
    requires
        scale <= MAX_SCALE,
    ensures
        p == pow10(scale as nat),
        1 <= p <= 10_000_000_000_000_000_000_000_000_000,
{
    let mut p: u128 = 1;
    let mut i: u32 = 0;
    proof {
        lemma_pow10_values();
    }
    while i < scale
        invariant
            i <= scale <= MAX_SCALE,
            p == pow10(i as nat),
            pow10(28) == 10_000_000_000_000_000_000_000_000_000int,
            forall|n: nat| 0 < #[trigger] pow10(n),
            forall|a: nat, b: nat| a <= b ==> #[trigger] pow10(a) <= #[trigger] pow10(b),
        decreases scale - i,
    {
        assert(pow10((i + 1) as nat) <= pow10(28));
        p = p * 10;
        i = i + 1;
    }
    assert(pow10(0) <= pow10(scale as nat) <= pow10(28));
    p
}

/// A multiple of `d` leaves no remainder, and its quotient is the factor.
pub proof fn lemma_exact_division(x: int, d: int, q: int)
    requires
        d > 0,
        x == q * d,
    ensures
        x % d == 0,
        x / d == q,
{
    vstd::arithmetic::div_mod::lemma_fundamental_div_mod_converse(x, d, q, 0);
}

/// What leaves no remainder is the divisor times the quotient.
pub proof fn lemma_multiple_of_divisor(x: int, d: int)
    requires
        d > 0,
        x % d == 0,
    ensures
        x == (x / d) * d,
{
    vstd::arithmetic::div_mod::lemma_fundamental_div_mod(x, d);
    assert(d * (x / d) == (x / d) * d) by (nonlinear_arith);
}

proof fn lemma_mod_of_negation(m: int, unit: int)
    requires
        unit > 0,
    ensures
        ((-m) % unit == 0) == (m % unit == 0),
        m % unit == 0 ==> (-m) / unit == -(m / unit),
{
    if m % unit == 0 {
        lemma_multiple_of_divisor(m, unit);
        let q = m / unit;
        assert(-m == (-q) * unit) by (nonlinear_arith)
            requires
                m == q * unit,
        ;
        lemma_exact_division(-m, unit, -q);
    }
    if (-m) % unit == 0 {
        lemma_multiple_of_divisor(-m, unit);
        let q = (-m) / unit;
        assert(m == (-q) * unit) by (nonlinear_arith)
            requires
                -m == q * unit,
        ;
        lemma_exact_division(m, unit, -q);
    }
}

proof fn lemma_least_scale_of_negation(d: DecimalModel)
    ensures
        d.least_scale() == (DecimalModel { mantissa: -d.mantissa, scale: d.scale }).least_scale(),
    decreases d.scale,
{
    if d.mantissa != 0 && d.scale != 0 {
        lemma_mod_of_negation(d.mantissa, 10);
        if d.mantissa % 10 == 0 {
            lemma_least_scale_of_negation(
                DecimalModel { mantissa: d.mantissa / 10, scale: (d.scale - 1) as nat },
            );
        }
    }
}

/// Reads a decimal number out of `text`.
///
/// Trusted: this is `rust_decimal`'s `Decimal::from_str`, which gives the
/// same decimal for the same text and an error for text it does not take
/// for a number. The contract gives what it reads a name and claims nothing
/// else of it.
#[verifier::external_body]
fn outside_parse(text: &str) -> (d: Option<Decimal>)
    ensures
        view_of(d) == decimal_of_text(text@),
        d matches Some(d) ==> d@.representable(),
{
    match rust_decimal::Decimal::from_str(text) {
        Ok(v) => Some(Decimal { mantissa: v.mantissa(), scale: v.scale() }),
        Err(_) => None,
    }
}

/// Divides `a` by `b`.
///
/// Trusted: this is `rust_decimal`'s `Decimal::checked_div`. It returns
/// `None` for a zero divisor and on overflow, and plain zero for a zero
/// dividend. Where the integer division of the mantissas leaves no
/// remainder and the difference of the scales is not negative, it returns
/// that quotient at that scale without further steps. The contract claims
/// these three cases and gives every other quotient a name.
#[verifier::external_body]
fn outside_div(a: Decimal, b: Decimal) -> (q: Option<Decimal>)
    ensures
        b@.mantissa == 0 ==> q is None,
        b@.mantissa != 0 && a@.mantissa == 0 ==> view_of(q) == Some(whole_number(0)),
        divides_evenly(a@, b@) ==> view_of(q) == Some(even_quotient(a@, b@)),
        b@.mantissa != 0 && a@.mantissa != 0 && !divides_evenly(a@, b@) ==> view_of(q)
            == long_quotient(a@, b@),
        q matches Some(q) ==> q@.representable(),
{
    let x = rust_decimal::Decimal::from_i128_with_scale(a.mantissa, a.scale);
    let y = rust_decimal::Decimal::from_i128_with_scale(b.mantissa, b.scale);
    match x.checked_div(y) {
        Some(v) => Some(Decimal { mantissa: v.mantissa(), scale: v.scale() }),
        None => None,
    }
}

/// Multiplies `a` by `b`.
///
/// Trusted: this is `rust_decimal`'s `Decimal::checked_mul`. It returns
/// plain zero where a factor is zero. Where the product of the mantissas
/// fits in 96 bits and the sum of the scales is at most 28, it returns that
/// product at that scale; else it rescales, and returns `None` on overflow.
/// The contract claims the first two cases and gives every other product a
/// name.
#[verifier::external_body]
fn outside_mul(a: Decimal, b: Decimal) -> (p: Option<Decimal>)
    ensures
        a@.mantissa == 0 || b@.mantissa == 0 ==> view_of(p) == Some(whole_number(0)),
        multiplies_exactly(a@, b@) ==> view_of(p) == Some(exact_product(a@, b@)),
        a@.mantissa != 0 && b@.mantissa != 0 && !multiplies_exactly(a@, b@) ==> view_of(p)
            == rescaled_product(a@, b@),
        p matches Some(p) ==> p@.representable(),
{
    let x = rust_decimal::Decimal::from_i128_with_scale(a.mantissa, a.scale);
    let y = rust_decimal::Decimal::from_i128_with_scale(b.mantissa, b.scale);
    match x.checked_mul(y) {
        Some(v) => Some(Decimal { mantissa: v.mantissa(), scale: v.scale() }),
        None => None,
    }
}

/// Adds `a` and `b`.
///
/// Trusted: this is `rust_decimal`'s `Decimal::checked_add`, which returns
/// `None` on overflow. The contract gives the sum a name and claims nothing
/// else of it.
#[verifier::external_body]
fn outside_add(a: Decimal, b: Decimal) -> (sum: Option<Decimal>)
    ensures
        view_of(sum) == decimal_sum(a@, b@),
        sum matches Some(sum) ==> sum@.representable(),
{
    let x = rust_decimal::Decimal::from_i128_with_scale(a.mantissa, a.scale);
    let y = rust_decimal::Decimal::from_i128_with_scale(b.mantissa, b.scale);
    match x.checked_add(y) {
        Some(v) => Some(Decimal { mantissa: v.mantissa(), scale: v.scale() }),
        None => None,
    }
}

/// Whether `a` is at most `b`.
///
/// Trusted: this is the order of `rust_decimal`'s `Decimal`, which orders
/// decimals by the numbers they stand for, whatever their scales.
#[verifier::external_body]
fn outside_le(a: Decimal, b: Decimal) -> (le: bool)
    ensures
        le == a@.at_most(b@),
{
    let x = rust_decimal::Decimal::from_i128_with_scale(a.mantissa, a.scale);
    let y = rust_decimal::Decimal::from_i128_with_scale(b.mantissa, b.scale);
    x <= y
}

/// Writes `d` as text.
///
/// Trusted: this is the `Display` of `rust_decimal`'s `Decimal`, which
/// writes the same text for the same mantissa and scale. The contract
/// gives the text a name and claims nothing else of it.
#[verifier::external_body]
fn outside_text(d: Decimal) -> (text: String)
    ensures
        text@ == decimal_text(d@),
{
    rust_decimal::Decimal::from_i128_with_scale(d.mantissa, d.scale).to_string()
}

impl Decimal {
    #[verifier::type_invariant]
    closed spec fn well_formed(&self) -> bool {
        -MANTISSA_LIMIT < self.mantissa < MANTISSA_LIMIT && self.scale <= MAX_SCALE
    }

    /// The decimal `mantissa / 10^scale`, or `None` where the mantissa does
    /// not fit in 96 bits or the scale is above 28.
    pub fn from_parts(mantissa: i128, scale: u32) -> (d: Option<Decimal>)
        ensures
            (DecimalModel { mantissa: mantissa as int, scale: scale as nat }).representable()
                <==> d is Some,
            d matches Some(d) ==> d@.mantissa == mantissa && d@.scale == scale
                && d@.representable(),
    {
        if -MANTISSA_LIMIT < mantissa && mantissa < MANTISSA_LIMIT && scale <= MAX_SCALE {
            Some(Decimal { mantissa, scale })
        } else {
            None
        }
    }

    /// The decimal for the integer `n`.
    pub fn from_u64(n: u64) -> (d: Decimal)
        ensures
            d@ == whole_number(n as int),
            d@.representable(),
    {
        Decimal { mantissa: n as i128, scale: 0 }
    }

    /// Zero.
    pub fn zero() -> (d: Decimal)
        ensures
            d@ == whole_number(0),
            d@.representable(),
    {
        Decimal { mantissa: 0, scale: 0 }
    }

    /// The mantissa `m` of `m / 10^e`.
    pub fn mantissa(&self) -> (m: i128)
        ensures
            m == self@.mantissa,
            self@.representable(),
    {
        proof {
            use_type_invariant(self);
        }
        self.mantissa
    }

    /// The scale `e` of `m / 10^e`.
    pub fn scale(&self) -> (e: u32)
        ensures
            e == self@.scale,
            self@.representable(),
    {
        proof {
            use_type_invariant(self);
        }
        self.scale
    }

    /// Whether the number is zero.
    pub fn is_zero(&self) -> (zero: bool)
        ensures
            zero == (self@.mantissa == 0),
    {
        self.mantissa == 0
    }

    /// Whether the number is below zero.
    pub fn is_negative(&self) -> (negative: bool)
        ensures
            negative == (self@.mantissa < 0),
    {
        self.mantissa < 0
    }

    /// The mantissa without its sign.
    fn magnitude(&self) -> (a: u128)
        ensures
            a == if self@.mantissa < 0 {
                -self@.mantissa
            } else {
                self@.mantissa
            },
            a < MANTISSA_LIMIT,
            self@.representable(),
    {
        proof {
            use_type_invariant(self);
        }
        if self.mantissa < 0 {
            (-self.mantissa) as u128
        } else {
            self.mantissa as u128
        }
    }

    /// Whether the number has no fractional part.
    pub fn is_integer(&self) -> (whole: bool)
        ensures
            whole == self@.is_whole(),
    {
        let unit = power_of_ten(self.scale());
        let a = self.magnitude();
        proof {
            lemma_mod_of_negation(self@.mantissa, unit as int);
        }
        a % unit == 0
    }

    /// The nearest integer, as a decimal of scale zero; a number halfway
    /// between two integers goes to the even one.
    pub fn round(&self) -> (r: Decimal)
        ensures
            r@ == whole_number(self@.rounded()),
            r@.representable(),
    {
        let unit = power_of_ten(self.scale());
        let a = self.magnitude();
        let whole = a / unit;
        let rest = a % unit;
        let nearest = if rest > unit - rest || (rest == unit - rest && whole % 2 == 1) {
            whole + 1
        } else {
            whole
        };
        assert(nearest < MANTISSA_LIMIT) by {
            if unit == 1 {
                assert(rest == 0);
            } else {
                lemma_pow10_values();
                assert(unit >= 10) by {
                    assert(self@.scale >= 1);
                    assert(pow10(1) <= pow10(self@.scale));
                }
                assert(whole * 10 <= a) by (nonlinear_arith)
                    requires
                        whole == a / unit,
                        unit >= 10,
                        a >= 0,
                ;
            }
        }
        if self.mantissa < 0 {
            Decimal { mantissa: -(nearest as i128), scale: 0 }
        } else {
            Decimal { mantissa: nearest as i128, scale: 0 }
        }
    }

    /// The integer part as a `u64`: `None` for a number below zero and for
    /// one whose integer part does not fit.
    pub fn to_u64(&self) -> (n: Option<u64>)
        ensures
            n == self@.whole_part(),
    {
        let unit = power_of_ten(self.scale());
        if self.mantissa < 0 {
            return None;
        }
        let whole = self.magnitude() / unit;
        if whole > u64::MAX as u128 {
            None
        } else {
            Some(whole as u64)
        }
    }

    /// The least scale at which the number can be written: its scale less
    /// the trailing zeros of its fraction.
    pub fn least_scale(&self) -> (e: u32)
        ensures
            e == self@.least_scale(),
            e <= self@.scale <= MAX_SCALE,
    {
        let mut a = self.magnitude();
        let mut e = self.scale();
        proof {
            lemma_least_scale_of_negation(self@);
        }
        while e > 0 && a != 0 && a % 10 == 0
            invariant
                e <= self@.scale,
                (DecimalModel { mantissa: a as int, scale: e as nat }).least_scale()
                    == self@.least_scale(),
            decreases e,
        {
            a = a / 10;
            e = e - 1;
        }
        if a == 0 {
            0
        } else {
            e
        }
    }

    /// Reads a decimal number out of `text`, `None` where it holds none.
    pub fn parse(text: &str) -> (d: Option<Decimal>)
        ensures
            view_of(d) == decimal_of_text(text@),
            d matches Some(d) ==> d@.representable(),
    {
        outside_parse(text)
    }

    /// `self / divisor`, `None` for a zero divisor and on overflow.
    pub fn checked_div(&self, divisor: &Decimal) -> (q: Option<Decimal>)
        ensures
            view_of(q) == quotient(self@, divisor@),
            q matches Some(q) ==> q@.representable(),
    {
        outside_div(*self, *divisor)
    }

    /// `self * factor`, `None` on overflow.
    pub fn checked_mul(&self, factor: &Decimal) -> (p: Option<Decimal>)
        ensures
            view_of(p) == product(self@, factor@),
            p matches Some(p) ==> p@.representable(),
    {
        outside_mul(*self, *factor)
    }

    /// `self + other`, `None` on overflow.
    pub fn checked_add(&self, other: &Decimal) -> (sum: Option<Decimal>)
        ensures
            view_of(sum) == decimal_sum(self@, other@),
            sum matches Some(sum) ==> sum@.representable(),
    {
        outside_add(*self, *other)
    }

    /// Whether this number is at most `other`.
    pub fn le(&self, other: &Decimal) -> (le: bool)
        ensures
            le == self@.at_most(other@),
    {
        outside_le(*self, *other)
    }

    /// Whether this number and `other` are the same number, whatever their
    /// scales.
    pub fn same_value(&self, other: &Decimal) -> (same: bool)
        ensures
            same == self@.same_value(other@),
    {
        outside_le(*self, *other) && outside_le(*other, *self)
    }

    /// The number written out, with as many decimals as its scale.
    pub fn to_text(&self) -> (text: String)
        ensures
            text@ == decimal_text(self@),
    {
        outside_text(*self)
    }

    /// Whether the number is above zero.
    pub fn is_positive(&self) -> (positive: bool)
        ensures
            positive == (self@.mantissa > 0),
    {
        self.mantissa > 0
    }
}

} // verus!
