use price_feed::cache::{build_and_publish, SnapshotCache};
use price_feed::model::{CurrencySymbol, ExchangeQuoteTable, Quote, SerializationError};
use price_feed::price::{Price, UNIT};
use price_feed::serve::api_reply;
use price_feed::snapshot::build_snapshot;

fn one_table() -> Vec<ExchangeQuoteTable> {
    let mut t = ExchangeQuoteTable::new(b"Coinbase".to_vec());
    t.set_quote(
        CurrencySymbol::Btc,
        Quote { buy: Price { units: 9 * UNIT }, sell: Price { units: 8 * UNIT } },
    );
    vec![t]
}

#[test]
fn starts_empty_and_reads_are_idempotent() {
    let cache = SnapshotCache::new();
    assert_eq!(cache.read(), None);
    // No interleaved publish: every read yields the same value.
    assert_eq!(cache.read(), cache.read());
}

#[test]
fn publish_then_read_returns_the_document() {
    let cache = SnapshotCache::new();
    let doc = build_snapshot(&one_table()).unwrap();
    cache.publish(doc.clone());
    assert_eq!(cache.read(), Some(doc.clone()));
    // Idempotent again once populated.
    assert_eq!(cache.read(), Some(doc));
}

#[test]
fn publish_replaces_the_whole_value() {
    let cache = SnapshotCache::new();
    let first = build_snapshot(&one_table()).unwrap();
    cache.publish(first.clone());
    assert_eq!(cache.read(), Some(first));
    let mut tables = one_table();
    tables[0].set_quote(
        CurrencySymbol::Eth,
        Quote { buy: Price { units: 5 * UNIT }, sell: Price { units: 4 * UNIT } },
    );
    let second = build_snapshot(&tables).unwrap();
    cache.publish(second.clone());
    // Populated stays populated; readers only ever see the newer value.
    assert_eq!(cache.read(), Some(second));
}

#[test]
fn cycle_skips_publish_on_a_defect() {
    let cache = SnapshotCache::new();
    let good = one_table();
    assert_eq!(build_and_publish(&cache, &good), Ok(()));
    let served = cache.read().unwrap();
    let bad = vec![ExchangeQuoteTable::new(b"bad\"name".to_vec())];
    assert_eq!(build_and_publish(&cache, &bad), Err(SerializationError::Defect));
    // The cache keeps serving the last good snapshot.
    assert_eq!(cache.read(), Some(served));
}

#[test]
fn empty_cache_is_served_as_an_explicit_500() {
    let cache = SnapshotCache::new();
    let reply = api_reply(cache.read());
    assert_eq!(reply.status, 500);
    assert_eq!(reply.content_type, "text/plain; charset=utf-8");
    assert_eq!(String::from_utf8(reply.body).unwrap(), "No data found.");
}

#[test]
fn populated_cache_is_served_as_json() {
    let cache = SnapshotCache::new();
    let doc = build_snapshot(&one_table()).unwrap();
    cache.publish(doc.clone());
    let reply = api_reply(cache.read());
    assert_eq!(reply.status, 200);
    assert_eq!(reply.content_type, "application/json");
    assert_eq!(reply.body, doc);
    // The served body is itself valid JSON with the fixed shape.
    let v: serde_json::Value = serde_json::from_slice(&reply.body).unwrap();
    assert!(v.get("data").unwrap().is_array());
}
