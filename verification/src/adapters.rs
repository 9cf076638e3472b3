//! The quote source adapters.
//!
//! Two providers, two shapes. The per-action provider answers one call
//! per (symbol, action) with `{"data":{"base":..,"currency":..,"amount":"<decimal>"}}`.
//! The single-ticker provider answers one call per symbol with
//! `{"result":{"<pair>":{"a":["<ask>",..],"b":["<bid>",..],..}}}` where
//! the pair key is only discovered at runtime. The raw JSON field
//! extraction is delegated to `serde_json` behind two trusted wrappers
//! whose results are named, opaque functions of the body; everything
//! decided about those results — the single-key rule, amount parsing,
//! which quote fields change — is verified here.

use vstd::prelude::*;
use crate::model::{Action, CurrencySymbol, FetchError, Quote, ExchangeQuoteTable, spec_quote,
    updated_quote};
use crate::price::{Price, decimal_units, is_decimal, parse_price};

verus! {

/// The `data.amount` string that the per-action provider's body carries,
/// when the body deserializes into the expected shape; what
/// `coinbase_amount_field` returns.
pub uninterp spec fn coinbase_amount(body: Seq<char>) -> Option<Seq<u8>>;

/// What the single-ticker provider's body carries: the number of keys
/// under `result`, and the `a[0]` and `b[0]` strings of the first entry;
/// what `kraken_ticker_fields` returns.
pub uninterp spec fn kraken_ticker(body: Seq<char>) -> Option<
    (nat, Option<Seq<u8>>, Option<Seq<u8>>),
>;

/// Relies on `serde_json::from_str` and `serde_json::Value::{get, as_str}`:
/// yields the `data.amount` string of a per-action response, present
/// exactly when the body is JSON whose `data` object carries string
/// `base`, `currency` and `amount` fields. A deterministic function of
/// the body alone.
#[verifier::external_body]
fn coinbase_amount_field(body: &str) -> (r: Option<Vec<u8>>)
    ensures
        r is Some <==> coinbase_amount(body@) is Some,
        r matches Some(v) ==> coinbase_amount(body@) matches Some(a) && v@ == a,
{
    let doc: serde_json::Value = match serde_json::from_str(body) {
        Ok(v) => v,
        Err(_) => return None,
    };
    let data = doc.get("data")?;
    data.get("base")?.as_str()?;
    data.get("currency")?.as_str()?;
    let amount = data.get("amount")?.as_str()?;
    Some(amount.as_bytes().to_vec())
}

/// Relies on `serde_json::from_str`, `serde_json::Value::{get, as_object,
/// as_str}` and `serde_json::Map::{len, values}`: yields the key count
/// under `result` and the `a[0]` and `b[0]` strings of its first entry,
/// present exactly when the body is JSON with a `result` object.
/// serde_json's maps are BTreeMap-backed (`preserve_order` is off), so
/// the first entry, and with it this whole result, is a deterministic
/// function of the body alone.
#[verifier::external_body]
fn kraken_ticker_fields(body: &str) -> (r: Option<(usize, Option<Vec<u8>>, Option<Vec<u8>>)>)
    ensures
        r is Some <==> kraken_ticker(body@) is Some,
        r matches Some(t) ==> kraken_ticker(body@) matches Some(s) && t.0 as nat == s.0 && (t.1
            is Some <==> s.1 is Some) && (t.1 matches Some(v) ==> s.1 matches Some(a) && v@ == a)
            && (t.2 is Some <==> s.2 is Some) && (t.2 matches Some(v) ==> s.2 matches Some(b) && v@
            == b),
{
    let doc: serde_json::Value = match serde_json::from_str(body) {
        Ok(v) => v,
        Err(_) => return None,
    };
    let obj = doc.get("result")?.as_object()?;
    let first = obj.values().next();
    let ask = first.and_then(|t| t.get("a")).and_then(|a| a.get(0)).and_then(|x| x.as_str());
    let bid = first.and_then(|t| t.get("b")).and_then(|b| b.get(0)).and_then(|x| x.as_str());
    Some((obj.len(), ask.map(|s| s.as_bytes().to_vec()), bid.map(|s| s.as_bytes().to_vec())))
}

/// The price an amount string yields, when it matches the decimal
/// grammar and fits.
pub open spec fn parsed_amount(a: Seq<u8>) -> Option<Price> {
    if is_decimal(a) && decimal_units(a) <= u64::MAX {
        Some(Price { units: decimal_units(a) as u64 })
    } else {
        None
    }
}

/// What one per-action response body yields for its (symbol, action)
/// cell: a price exactly when the body has the expected shape and a
/// representable non-negative decimal amount.
pub open spec fn coinbase_outcome(body: Seq<char>) -> Option<Price> {
    match coinbase_amount(body) {
        Some(a) => parsed_amount(a),
        None => None,
    }
}

/// What one ticker response body yields for its symbol: an (ask, bid)
/// pair exactly when the body has a `result` object with exactly one
/// key whose `a[0]` and `b[0]` are representable decimal strings.
pub open spec fn kraken_outcome(body: Seq<char>) -> Option<(Price, Price)> {
    match kraken_ticker(body) {
        Some(t) => if t.0 == 1 {
            match (t.1, t.2) {
                (Some(a), Some(b)) => match (parsed_amount(a), parsed_amount(b)) {
                    (Some(pa), Some(pb)) => Some((pa, pb)),
                    _ => None,
                },
                _ => None,
            }
        } else {
            None
        },
        None => None,
    }
}

/// Apply one per-action call's outcome to one symbol's quote. `None` is
/// a transport failure (`Unreachable`); a body that does not yield a
/// price is `BadResponse`. Only the named side is ever written, and only
/// on success; on any failure the quote keeps its previous value.
pub fn apply_coinbase(q: &mut Quote, action: Action, outcome: Option<&str>) -> (r: Result<
    (),
    FetchError,
>)
    ensures
        match outcome {
            None => r == Err::<(), FetchError>(FetchError::Unreachable) && *final(q) == *old(q),
            Some(body) => match coinbase_outcome(body@) {
                None => r == Err::<(), FetchError>(FetchError::BadResponse) && *final(q) == *old(
                    q,
                ),
                Some(p) => r == Ok::<(), FetchError>(()) && *final(q) == updated_quote(
                    *old(q),
                    action,
                    p,
                ),
            },
        },
{
    match outcome {
        None => Err(FetchError::Unreachable),
        Some(body) => match coinbase_amount_field(body) {
            None => Err(FetchError::BadResponse),
            Some(bytes) => match parse_price(&bytes) {
                None => Err(FetchError::BadResponse),
                Some(p) => {
                    match action {
                        Action::Buy => {
                            q.buy = p;
                        },
                        Action::Sell => {
                            q.sell = p;
                        },
                    }
                    Ok(())
                },
            },
        },
    }
}

/// Apply one ticker call's outcome to one symbol's quote. Both sides are
/// updated together on success; a transport failure is `Unreachable`;
/// anything else — a non-JSON body, a missing `result`, zero or more
/// than one pair key, or a side that is not a representable decimal
/// string — is `BadResponse` and leaves the quote untouched.
pub fn apply_kraken(q: &mut Quote, outcome: Option<&str>) -> (r: Result<(), FetchError>)
    ensures
        match outcome {
            None => r == Err::<(), FetchError>(FetchError::Unreachable) && *final(q) == *old(q),
            Some(body) => match kraken_outcome(body@) {
                None => r == Err::<(), FetchError>(FetchError::BadResponse) && *final(q) == *old(
                    q,
                ),
                Some(pp) => r == Ok::<(), FetchError>(()) && *final(q) == (Quote {
                    buy: pp.0,
                    sell: pp.1,
                }),
            },
        },
{
    match outcome {
        None => Err(FetchError::Unreachable),
        Some(body) => match kraken_ticker_fields(body) {
            None => Err(FetchError::BadResponse),
            Some((n, ask, bid)) => {
                if n != 1 {
                    return Err(FetchError::BadResponse);
                }
                match (ask, bid) {
                    (Some(a), Some(b)) => {
                        let pa = parse_price(&a);
                        let pb = parse_price(&b);
                        match (pa, pb) {
                            (Some(x), Some(y)) => {
                                q.buy = x;
                                q.sell = y;
                                Ok(())
                            },
                            _ => Err(FetchError::BadResponse),
                        }
                    },
                    _ => Err(FetchError::BadResponse),
                }
            },
        },
    }
}

/// One sweep step at the per-action exchange: update one (symbol,
/// action) cell in place. The table's name and every other symbol's
/// quote are untouched whatever happens.
pub fn table_apply_coinbase(
    t: &mut ExchangeQuoteTable,
    sym: CurrencySymbol,
    action: Action,
    outcome: Option<&str>,
) -> (r: Result<(), FetchError>)
    ensures
        final(t).name == old(t).name,
        forall|s: CurrencySymbol|
            s != sym ==> spec_quote(*final(t), s) == spec_quote(*old(t), s),
        match outcome {
            None => r == Err::<(), FetchError>(FetchError::Unreachable) && spec_quote(
                *final(t),
                sym,
            ) == spec_quote(*old(t), sym),
            Some(body) => match coinbase_outcome(body@) {
                None => r == Err::<(), FetchError>(FetchError::BadResponse) && spec_quote(
                    *final(t),
                    sym,
                ) == spec_quote(*old(t), sym),
                Some(p) => r == Ok::<(), FetchError>(()) && spec_quote(*final(t), sym)
                    == updated_quote(spec_quote(*old(t), sym), action, p),
            },
        },
{
    let mut q = t.quote(sym);
    let r = apply_coinbase(&mut q, action, outcome);
    t.set_quote(sym, q);
    r
}

/// One sweep step at the single-ticker exchange: update one symbol's
/// whole quote in place, leaving the rest of the table untouched.
pub fn table_apply_kraken(
    t: &mut ExchangeQuoteTable,
    sym: CurrencySymbol,
    outcome: Option<&str>,
) -> (r: Result<(), FetchError>)
    ensures
        final(t).name == old(t).name,
        forall|s: CurrencySymbol|
            s != sym ==> spec_quote(*final(t), s) == spec_quote(*old(t), s),
        match outcome {
            None => r == Err::<(), FetchError>(FetchError::Unreachable) && spec_quote(
                *final(t),
                sym,
            ) == spec_quote(*old(t), sym),
            Some(body) => match kraken_outcome(body@) {
                None => r == Err::<(), FetchError>(FetchError::BadResponse) && spec_quote(
                    *final(t),
                    sym,
                ) == spec_quote(*old(t), sym),
                Some(pp) => r == Ok::<(), FetchError>(()) && spec_quote(*final(t), sym) == (Quote {
                    buy: pp.0,
                    sell: pp.1,
                }),
            },
        },
{
    let mut q = t.quote(sym);
    let r = apply_kraken(&mut q, outcome);
    t.set_quote(sym, q);
    r
}

/// The per-action provider's request URL for one (symbol, action).
pub open spec fn coinbase_url_spec(sym: CurrencySymbol, action: Action) -> Seq<char> {
    match (sym, action) {
        (CurrencySymbol::Btc, Action::Buy) => "https://api.coinbase.com/v2/prices/BTC-USD/buy"@,
        (CurrencySymbol::Btc, Action::Sell) => "https://api.coinbase.com/v2/prices/BTC-USD/sell"@,
        (CurrencySymbol::Eth, Action::Buy) => "https://api.coinbase.com/v2/prices/ETH-USD/buy"@,
        (CurrencySymbol::Eth, Action::Sell) => "https://api.coinbase.com/v2/prices/ETH-USD/sell"@,
    }
}

pub fn coinbase_url(sym: CurrencySymbol, action: Action) -> (r: &'static str)
    ensures
        r@ == coinbase_url_spec(sym, action),
{
    match (sym, action) {
        (CurrencySymbol::Btc, Action::Buy) => "https://api.coinbase.com/v2/prices/BTC-USD/buy",
        (CurrencySymbol::Btc, Action::Sell) => "https://api.coinbase.com/v2/prices/BTC-USD/sell",
        (CurrencySymbol::Eth, Action::Buy) => "https://api.coinbase.com/v2/prices/ETH-USD/buy",
        (CurrencySymbol::Eth, Action::Sell) => "https://api.coinbase.com/v2/prices/ETH-USD/sell",
    }
}

/// The single-ticker provider's request URL for one symbol: the pair
/// spelling is the symbol and fiat concatenated, case-normalized to
/// lower case.
pub open spec fn kraken_url_spec(sym: CurrencySymbol) -> Seq<char> {
    match sym {
        CurrencySymbol::Btc => "https://api.kraken.com/0/public/Ticker?pair=btcusd"@,
        CurrencySymbol::Eth => "https://api.kraken.com/0/public/Ticker?pair=ethusd"@,
    }
}

pub fn kraken_url(sym: CurrencySymbol) -> (r: &'static str)
    ensures
        r@ == kraken_url_spec(sym),
{
    match sym {
        CurrencySymbol::Btc => "https://api.kraken.com/0/public/Ticker?pair=btcusd",
        CurrencySymbol::Eth => "https://api.kraken.com/0/public/Ticker?pair=ethusd",
    }
}

} // verus!
