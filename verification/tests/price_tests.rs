use price_feed::price::{parse_price, render_price, Price, UNIT};

fn parse(s: &str) -> Option<Price> {
    parse_price(&s.as_bytes().to_vec())
}

fn units(s: &str) -> u64 {
    parse(s).expect("should parse").units
}

#[test]
fn parses_plain_integers() {
    assert_eq!(units("0"), 0);
    assert_eq!(units("7"), 7 * UNIT);
    assert_eq!(units("007"), 7 * UNIT);
    assert_eq!(units("50000"), 50000 * UNIT);
}

#[test]
fn parses_fractions() {
    assert_eq!(units("50000.50"), 50000 * UNIT + 50_000_000);
    assert_eq!(units("50000.1"), 50000 * UNIT + 10_000_000);
    assert_eq!(units("49999.9"), 49999 * UNIT + 90_000_000);
    assert_eq!(units("0.00000123"), 123);
}

#[test]
fn truncates_digits_past_the_scale() {
    assert_eq!(units("0.123456789"), 12_345_678);
    assert_eq!(units("1.999999999"), UNIT + 99_999_999);
}

#[test]
fn rejects_non_decimals() {
    for bad in [
        "", ".", "5.", ".5", "-1", "-0.5", "+1", "1e3", "inf", "NaN", " 1", "1 ", "1.2.3", "1,5",
        "abc", "0x10",
    ] {
        assert_eq!(parse(bad), None, "{bad:?} should be rejected");
    }
}

#[test]
fn range_edges() {
    // The largest representable price.
    assert_eq!(units("184467440737.09551615"), u64::MAX);
    // One step past it in the last digit.
    assert_eq!(parse("184467440737.09551616"), None);
    // An integer part that alone no longer fits.
    assert_eq!(parse("184467440738"), None);
    assert_eq!(units("184467440737"), 184467440737 * UNIT);
    // Far too many integer digits.
    assert_eq!(parse("999999999999999999999"), None);
}

#[test]
fn renders_canonical_decimals() {
    let s = |u: u64| String::from_utf8(render_price(Price { units: u })).unwrap();
    assert_eq!(s(0), "0.0");
    assert_eq!(s(UNIT), "1.0");
    assert_eq!(s(50000 * UNIT + 10_000_000), "50000.1");
    assert_eq!(s(50000 * UNIT + 50_000_000), "50000.5");
    assert_eq!(s(123), "0.00000123");
    assert_eq!(s(u64::MAX), "184467440737.09551615");
}

#[test]
fn render_parse_round_trip() {
    for u in [0u64, 1, 9, 10, 123, UNIT, UNIT - 1, 50000 * UNIT + 10_000_000, u64::MAX] {
        let p = Price { units: u };
        let rendered = render_price(p);
        assert_eq!(parse_price(&rendered), Some(p));
    }
}
