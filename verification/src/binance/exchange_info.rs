//! Tick and step size of a symbol out of the venue's exchange information.

use vstd::prelude::*;
use crate::decimal::{decimal_of_text, Decimal};
use crate::text::{ascii_folded, same_text, same_text_ignoring_ascii_case};

verus! {

/// One trading rule of a symbol.
#[derive(Debug, Clone)]
pub struct Filter {
    pub filter_type: String,
    pub tick_size: Option<String>,
    pub step_size: Option<String>,
}

/// A symbol with its trading rules.
#[derive(Debug, Clone)]
pub struct SymbolInfo {
    pub symbol: String,
    pub filters: Vec<Filter>,
}

/// Why no tick and step size could be had.
#[derive(Clone, Copy, Debug, PartialEq, Eq, Structural)]
pub enum ExchangeInfoError {
    /// The exchange information does not list the symbol.
    SymbolNotFound,
    /// The symbol has no price rule, or its price rule has no tick size.
    TickSizeNotFound,
    /// The symbol has no lot size rule, or its lot size rule has no step
    /// size.
    StepSizeNotFound,
    /// The tick size is no decimal number.
    BadTickSize,
    /// The step size is no decimal number.
    BadStepSize,
}

/// The index of the first of the first `n` of `symbols` that is named
/// `name`, whatever the case of ASCII letters.
pub open spec fn first_symbol(symbols: Seq<SymbolInfo>, name: Seq<char>, n: int) -> Option<int>
    decreases n,
{
    if n <= 0 {
        None
    } else {
        match first_symbol(symbols, name, n - 1) {
            Some(i) => Some(i),
            None => if ascii_folded(symbols[n - 1].symbol@) == ascii_folded(name) {
                Some(n - 1)
            } else {
                None
            },
        }
    }
}

/// The index of the first of the first `n` of `filters` that is of type
/// `kind`.
pub open spec fn first_filter(filters: Seq<Filter>, kind: Seq<char>, n: int) -> Option<int>
    decreases n,
{
    if n <= 0 {
        None
    } else {
        match first_filter(filters, kind, n - 1) {
            Some(i) => Some(i),
            None => if filters[n - 1].filter_type@ == kind {
                Some(n - 1)
            } else {
                None
            },
        }
    }
}

/// The tick size text of the first price rule of `filters`.
pub open spec fn tick_size_text(filters: Seq<Filter>) -> Option<Seq<char>> {
    match first_filter(filters, "PRICE_FILTER"@, filters.len() as int) {
        Some(i) => match filters[i].tick_size {
            Some(text) => Some(text@),
            None => None,
        },
        None => None,
    }
}

/// The step size text of the first lot size rule of `filters`.
pub open spec fn step_size_text(filters: Seq<Filter>) -> Option<Seq<char>> {
    match first_filter(filters, "LOT_SIZE"@, filters.len() as int) {
        Some(i) => match filters[i].step_size {
            Some(text) => Some(text@),
            None => None,
        },
        None => None,
    }
}

/// What selecting tick and step size of `name` out of `symbols` gives,
/// with the sizes as read out of their texts.
pub open spec fn selection(symbols: Seq<SymbolInfo>, name: Seq<char>) -> Result<
    (Seq<char>, Seq<char>),
    ExchangeInfoError,
> {
    match first_symbol(symbols, name, symbols.len() as int) {
        None => Err(ExchangeInfoError::SymbolNotFound),
        Some(i) => match tick_size_text(symbols[i].filters@) {
            None => Err(ExchangeInfoError::TickSizeNotFound),
            Some(tick) => match step_size_text(symbols[i].filters@) {
                None => Err(ExchangeInfoError::StepSizeNotFound),
                Some(step) => if decimal_of_text(tick) is None {
                    Err(ExchangeInfoError::BadTickSize)
                } else if decimal_of_text(step) is None {
                    Err(ExchangeInfoError::BadStepSize)
                } else {
                    Ok((tick, step))
                },
            },
        },
    }
}

/// The first filter of type `kind`.
fn find_filter<'a>(filters: &'a Vec<Filter>, kind: &str) -> (found: Option<&'a Filter>)
    ensures
        match first_filter(filters@, kind@, filters@.len() as int) {
            Some(i) => 0 <= i < filters@.len() && found == Some(&filters@[i]),
            None => found is None,
        },
{
    let mut i: usize = 0;
    while i < filters.len()
        invariant
            i <= filters.len(),
            first_filter(filters@, kind@, i as int) is None,
        decreases filters.len() - i,
    {
        if same_text(filters[i].filter_type.as_str(), kind) {
            proof {
                lemma_first_filter_stays(filters@, kind@, i + 1, filters@.len() as int);
            }
            return Some(&filters[i]);
        }
        i = i + 1;
    }
    None
}

proof fn lemma_first_filter_stays(filters: Seq<Filter>, kind: Seq<char>, n: int, m: int)
    requires
        0 <= n <= m,
        first_filter(filters, kind, n) is Some,
    ensures
        first_filter(filters, kind, m) == first_filter(filters, kind, n),
    decreases m - n,
{
    if n < m {
        lemma_first_filter_stays(filters, kind, n, m - 1);
    }
}

proof fn lemma_first_symbol_stays(symbols: Seq<SymbolInfo>, name: Seq<char>, n: int, m: int)
    requires
        0 <= n <= m,
        first_symbol(symbols, name, n) is Some,
    ensures
        first_symbol(symbols, name, m) == first_symbol(symbols, name, n),
    decreases m - n,
{
    if n < m {
        lemma_first_symbol_stays(symbols, name, n, m - 1);
    }
}

/// The first symbol named `name`, whatever the case of ASCII letters.
fn find_symbol<'a>(symbols: &'a Vec<SymbolInfo>, name: &str) -> (found: Option<&'a SymbolInfo>)
    ensures
        match first_symbol(symbols@, name@, symbols@.len() as int) {
            Some(i) => 0 <= i < symbols@.len() && found == Some(&symbols@[i]),
            None => found is None,
        },
{
    let mut i: usize = 0;
    while i < symbols.len()
        invariant
            i <= symbols.len(),
            first_symbol(symbols@, name@, i as int) is None,
        decreases symbols.len() - i,
    {
        if same_text_ignoring_ascii_case(symbols[i].symbol.as_str(), name) {
            proof {
                lemma_first_symbol_stays(symbols@, name@, i + 1, symbols@.len() as int);
            }
            return Some(&symbols[i]);
        }
        i = i + 1;
    }
    None
}

/// Tick and step size of `symbol` out of the symbols of the exchange
/// information: the tick size of the first price rule and the step size of
/// the first lot size rule of the first symbol of that name.
pub fn select_tick_and_step_sizes(symbols: &Vec<SymbolInfo>, symbol: &str) -> (sizes: Result<
    (Decimal, Decimal),
    ExchangeInfoError,
>)
    ensures
        match selection(symbols@, symbol@) {
            Ok((tick, step)) => sizes matches Ok((t, s)) && Some(t@) == decimal_of_text(tick)
                && Some(s@) == decimal_of_text(step),
            Err(e) => sizes == Err::<(Decimal, Decimal), ExchangeInfoError>(e),
        },
{
    let info = match find_symbol(symbols, symbol) {
        Some(info) => info,
        None => {
            return Err(ExchangeInfoError::SymbolNotFound);
        },
    };
    let tick_text = match find_filter(&info.filters, "PRICE_FILTER") {
        Some(filter) => match &filter.tick_size {
            Some(text) => text,
            None => {
                return Err(ExchangeInfoError::TickSizeNotFound);
            },
        },
        None => {
            return Err(ExchangeInfoError::TickSizeNotFound);
        },
    };
    let step_text = match find_filter(&info.filters, "LOT_SIZE") {
        Some(filter) => match &filter.step_size {
            Some(text) => text,
            None => {
                return Err(ExchangeInfoError::StepSizeNotFound);
            },
        },
        None => {
            return Err(ExchangeInfoError::StepSizeNotFound);
        },
    };
    let tick = match Decimal::parse(tick_text.as_str()) {
        Some(tick) => tick,
        None => {
            return Err(ExchangeInfoError::BadTickSize);
        },
    };
    let step = match Decimal::parse(step_text.as_str()) {
        Some(step) => step,
        None => {
            return Err(ExchangeInfoError::BadStepSize);
        },
    };
    Ok((tick, step))
}

} // verus!
