//! The data model: currency symbols, quotes, per-exchange quote tables,
//! and the error taxonomy.

use vstd::prelude::*;
use crate::price::Price;

verus! {

/// The fixed, process-lifetime set of currency symbols the feed covers.
#[derive(Clone, Copy, Debug, PartialEq, Eq, Structural)]
pub enum CurrencySymbol {
    Btc,
    Eth,
}

/// The two sides a per-action provider quotes separately.
#[derive(Clone, Copy, Debug, PartialEq, Eq, Structural)]
pub enum Action {
    Buy,
    Sell,
}

/// Why one fetch failed. `Unreachable` is transport-level (no usable
/// response arrived); `BadResponse` is a body that is not in the expected
/// shape, including an amount that does not parse as a non-negative
/// decimal. Either is scoped to a single call and never aborts a sweep.
#[derive(Clone, Copy, Debug, PartialEq, Eq, Structural)]
pub enum FetchError {
    Unreachable,
    BadResponse,
}

/// Building the outbound document failed: an internal invariant was
/// broken. Fatal for that cycle's publish only.
#[derive(Clone, Copy, Debug, PartialEq, Eq, Structural)]
pub enum SerializationError {
    Defect,
}

/// Best available ask (`buy`) and bid (`sell`) for one symbol at one
/// exchange, in the fixed fiat unit.
#[derive(Clone, Copy, Debug, PartialEq, Eq, Structural)]
pub struct Quote {
    pub buy: Price,
    pub sell: Price,
}

impl Quote {
    /// The initial quote before any successful fetch.
    pub fn zero() -> (q: Quote)
        ensures
            q == (Quote { buy: Price { units: 0 }, sell: Price { units: 0 } }),
    {
        Quote { buy: Price { units: 0 }, sell: Price { units: 0 } }
    }
}

/// The quote with one side replaced; the other side is untouched.
pub open spec fn updated_quote(q: Quote, action: Action, p: Price) -> Quote {
    match action {
        Action::Buy => Quote { buy: p, sell: q.sell },
        Action::Sell => Quote { buy: q.buy, sell: p },
    }
}

/// The symbol enumeration order: the order in which every table and every
/// document lists its keys.
pub fn all_symbols() -> (r: Vec<CurrencySymbol>)
    ensures
        r@ =~= seq![CurrencySymbol::Btc, CurrencySymbol::Eth],
{
    let mut v: Vec<CurrencySymbol> = Vec::new();
    v.push(CurrencySymbol::Btc);
    v.push(CurrencySymbol::Eth);
    v
}

/// One exchange's quote table: a name and one quote per symbol, keyed in
/// enumeration order. Owned by the refresh loop between publishes.
#[derive(Clone, Debug)]
pub struct ExchangeQuoteTable {
    pub name: Vec<u8>,
    pub btc: Quote,
    pub eth: Quote,
}

/// The quote a table holds for a symbol.
pub open spec fn spec_quote(t: ExchangeQuoteTable, sym: CurrencySymbol) -> Quote {
    match sym {
        CurrencySymbol::Btc => t.btc,
        CurrencySymbol::Eth => t.eth,
    }
}

impl ExchangeQuoteTable {
    /// A fresh table: every quote starts at zero and is only ever
    /// overwritten by successfully parsed amounts.
    pub fn new(name: Vec<u8>) -> (t: ExchangeQuoteTable)
        ensures
            t.name == name,
            t.btc == (Quote { buy: Price { units: 0 }, sell: Price { units: 0 } }),
            t.eth == (Quote { buy: Price { units: 0 }, sell: Price { units: 0 } }),
    {
        ExchangeQuoteTable { name, btc: Quote::zero(), eth: Quote::zero() }
    }

    /// Read one symbol's quote.
    pub fn quote(&self, sym: CurrencySymbol) -> (q: Quote)
        ensures
            q == spec_quote(*self, sym),
    {
        match sym {
            CurrencySymbol::Btc => self.btc,
            CurrencySymbol::Eth => self.eth,
        }
    }

    /// Replace one symbol's quote; every other symbol and the name are
    /// untouched.
    pub fn set_quote(&mut self, sym: CurrencySymbol, q: Quote)
        ensures
            final(self).name == old(self).name,
            spec_quote(*final(self), sym) == q,
            forall|s: CurrencySymbol|
                s != sym ==> spec_quote(*final(self), s) == spec_quote(*old(self), s),
    {
        match sym {
            CurrencySymbol::Btc => {
                self.btc = q;
            },
            CurrencySymbol::Eth => {
                self.eth = q;
            },
        }
    }
}

/// Every quote a table can hold is non-negative: prices are unsigned
/// fixed-point, and the parser refuses any sign, so no completed cycle
/// can store a negative value.
pub proof fn lemma_quotes_nonnegative(t: ExchangeQuoteTable, sym: CurrencySymbol)
    ensures
        spec_quote(t, sym).buy.units >= 0,
        spec_quote(t, sym).sell.units >= 0,
{
}

/// Updating one side of a quote never touches the other side.
pub proof fn lemma_independent_sides(q: Quote, p: Price)
    ensures
        updated_quote(q, Action::Buy, p).buy == p,
        updated_quote(q, Action::Buy, p).sell == q.sell,
        updated_quote(q, Action::Sell, p).sell == p,
        updated_quote(q, Action::Sell, p).buy == q.buy,
{
}

} // verus!
