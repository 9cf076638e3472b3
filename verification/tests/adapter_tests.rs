use price_feed::adapters::{
    apply_coinbase, apply_kraken, coinbase_url, kraken_url, table_apply_coinbase,
    table_apply_kraken,
};
use price_feed::model::{Action, CurrencySymbol, ExchangeQuoteTable, FetchError, Quote};
use price_feed::price::{parse_price, Price, UNIT};

fn quote(buy: u64, sell: u64) -> Quote {
    Quote { buy: Price { units: buy }, sell: Price { units: sell } }
}

#[test]
fn coinbase_buy_updates_only_buy() {
    // End-to-end shape of the per-action provider's answer.
    let body = r#"{"data": {"base": "BTC", "currency": "USD", "amount": "50000.50"}}"#;
    let mut q = quote(1, 2);
    let r = apply_coinbase(&mut q, Action::Buy, Some(body));
    assert_eq!(r, Ok(()));
    assert_eq!(q.buy.units, 50000 * UNIT + 50_000_000);
    assert_eq!(q.sell.units, 2);
}

#[test]
fn coinbase_failed_buy_then_good_sell() {
    // A failed buy call followed by a successful sell call: sell is
    // updated, buy keeps its pre-cycle value.
    let mut q = quote(7, 8);
    let r1 = apply_coinbase(&mut q, Action::Buy, None);
    assert_eq!(r1, Err(FetchError::Unreachable));
    assert_eq!(q, quote(7, 8));
    let body = r#"{"data": {"base": "BTC", "currency": "USD", "amount": "49999.9"}}"#;
    let r2 = apply_coinbase(&mut q, Action::Sell, Some(body));
    assert_eq!(r2, Ok(()));
    assert_eq!(q.buy.units, 7);
    assert_eq!(q.sell.units, 49999 * UNIT + 90_000_000);
}

#[test]
fn coinbase_rejects_wrong_shapes() {
    let cases = [
        "not json at all",
        r#"{"data": {"currency": "USD", "amount": "1"}}"#, // missing base
        r#"{"data": {"base": "BTC", "amount": "1"}}"#,     // missing currency
        r#"{"data": {"base": "BTC", "currency": "USD"}}"#, // missing amount
        r#"{"data": {"base": "BTC", "currency": "USD", "amount": 1.5}}"#, // not a string
        r#"{"other": {}}"#,
        r#"{"data": {"base": "BTC", "currency": "USD", "amount": "-5"}}"#, // negative
        r#"{"data": {"base": "BTC", "currency": "USD", "amount": "1e3"}}"#,
    ];
    for body in cases {
        let mut q = quote(3, 4);
        let r = apply_coinbase(&mut q, Action::Buy, Some(body));
        assert_eq!(r, Err(FetchError::BadResponse), "{body}");
        assert_eq!(q, quote(3, 4), "quote must stay untouched for {body}");
    }
}

#[test]
fn kraken_ticker_updates_both_sides() {
    let body = r#"{"result": {"xxbtzusd": {"a": ["50000.1", "1"], "b": ["49999.9", "1"]}}}"#;
    let mut q = quote(0, 0);
    let r = apply_kraken(&mut q, Some(body));
    assert_eq!(r, Ok(()));
    assert_eq!(q.buy.units, 50000 * UNIT + 10_000_000);
    assert_eq!(q.sell.units, 49999 * UNIT + 90_000_000);
}

#[test]
fn kraken_pair_key_is_discovered_at_runtime() {
    // A different, unpredicted pair spelling works just the same.
    let body = r#"{"result": {"xethzusd": {"a": ["4000.25"], "b": ["3999.75"]}}}"#;
    let mut q = quote(0, 0);
    assert_eq!(apply_kraken(&mut q, Some(body)), Ok(()));
    assert_eq!(q.buy, parse_price(&b"4000.25".to_vec()).unwrap());
    assert_eq!(q.sell, parse_price(&b"3999.75".to_vec()).unwrap());
}

#[test]
fn kraken_missing_result_leaves_quote_unchanged() {
    let body = r#"{"error": []}"#;
    let mut q = quote(11, 12);
    let r = apply_kraken(&mut q, Some(body));
    assert_eq!(r, Err(FetchError::BadResponse));
    assert_eq!(q, quote(11, 12));
}

#[test]
fn kraken_rejects_ambiguous_or_malformed_tickers() {
    let cases = [
        "garbage",
        r#"{"result": {}}"#, // zero keys
        r#"{"result": {"a1": {"a": ["1"], "b": ["2"]}, "a2": {"a": ["3"], "b": ["4"]}}}"#, // two keys
        r#"{"result": {"x": {"a": [50000.1], "b": ["1"]}}}"#, // ask is not a string
        r#"{"result": {"x": {"b": ["1"]}}}"#, // no ask array
        r#"{"result": {"x": {"a": [], "b": ["1"]}}}"#, // empty ask array
        r#"{"result": {"x": {"a": ["-1"], "b": ["1"]}}}"#, // negative ask
        r#"{"result": "nope"}"#,
    ];
    for body in cases {
        let mut q = quote(5, 6);
        let r = apply_kraken(&mut q, Some(body));
        assert_eq!(r, Err(FetchError::BadResponse), "{body}");
        assert_eq!(q, quote(5, 6), "quote must stay untouched for {body}");
    }
}

#[test]
fn sweep_survives_one_bad_symbol() {
    // One symbol's malformed body must not stop the next symbol's update.
    let mut t = ExchangeQuoteTable::new(b"Kraken".to_vec());
    t.set_quote(CurrencySymbol::Btc, quote(11, 12));
    let outcomes = [
        (CurrencySymbol::Btc, r#"{"error": []}"#),
        (CurrencySymbol::Eth, r#"{"result": {"xethzusd": {"a": ["4000.5"], "b": ["3999.5"]}}}"#),
    ];
    let mut errors = 0;
    for (sym, body) in outcomes {
        if table_apply_kraken(&mut t, sym, Some(body)).is_err() {
            errors += 1;
        }
    }
    assert_eq!(errors, 1);
    assert_eq!(t.quote(CurrencySymbol::Btc), quote(11, 12));
    assert_eq!(t.quote(CurrencySymbol::Eth).buy.units, 4000 * UNIT + 50_000_000);
}

#[test]
fn table_apply_touches_only_its_symbol() {
    let mut t = ExchangeQuoteTable::new(b"Coinbase".to_vec());
    t.set_quote(CurrencySymbol::Eth, quote(31, 32));
    let body = r#"{"data": {"base": "BTC", "currency": "USD", "amount": "9.5"}}"#;
    let r = table_apply_coinbase(&mut t, CurrencySymbol::Btc, Action::Buy, Some(body));
    assert_eq!(r, Ok(()));
    assert_eq!(t.quote(CurrencySymbol::Eth), quote(31, 32));
    assert_eq!(t.quote(CurrencySymbol::Btc).buy.units, 9 * UNIT + 50_000_000);
}

#[test]
fn request_urls() {
    assert_eq!(
        coinbase_url(CurrencySymbol::Btc, Action::Buy),
        "https://api.coinbase.com/v2/prices/BTC-USD/buy"
    );
    assert_eq!(
        coinbase_url(CurrencySymbol::Eth, Action::Sell),
        "https://api.coinbase.com/v2/prices/ETH-USD/sell"
    );
    assert_eq!(kraken_url(CurrencySymbol::Btc), "https://api.kraken.com/0/public/Ticker?pair=btcusd");
    assert_eq!(kraken_url(CurrencySymbol::Eth), "https://api.kraken.com/0/public/Ticker?pair=ethusd");
}
