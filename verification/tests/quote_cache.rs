use stock_ledger::errors::TradeError;
use stock_ledger::models::FinnhubProfile;
use stock_ledger::quotes::QuoteCache;
use stock_ledger::quotes::Quote;
use stock_ledger::quotes::PRICE_TTL_SECS;
use stock_ledger::quotes::PROFILE_TTL_SECS;

fn quote(price: i64) -> Quote {
    Quote { price, day_change: 150, day_change_percent: 120, prev_close: price - 150 }
}

fn profile(name: &str) -> FinnhubProfile {
    FinnhubProfile {
        name: name.to_string(),
        logo: "https://example.com/logo.png".to_string(),
        finnhub_industry: "Technology".to_string(),
    }
}

#[test]
fn price_served_from_cache_within_ttl() {
    // Fetched once at t, a second lookup inside the TTL window is a
    // cache hit: no second upstream call is needed.
    let mut cache = QuoteCache::new();
    let sym = "ACME".to_string();
    let t: u64 = 1_000;

    assert!(cache.get_price(&sym, t).is_none());
    cache.store_price(&sym, quote(12_345), t).unwrap();

    assert_eq!(cache.get_price(&sym, t).unwrap().price, 12_345);
    assert_eq!(cache.get_price(&sym, t + PRICE_TTL_SECS - 1).unwrap().price, 12_345);
}

#[test]
fn price_expires_after_ttl() {
    let mut cache = QuoteCache::new();
    let sym = "ACME".to_string();
    let t: u64 = 1_000;
    cache.store_price(&sym, quote(12_345), t).unwrap();

    assert!(cache.get_price(&sym, t + PRICE_TTL_SECS).is_none());
    assert!(cache.get_price(&sym, t + PRICE_TTL_SECS + 50).is_none());

    // A fresh fetch overwrites the entry and restarts the window.
    let t2 = t + PRICE_TTL_SECS + 60;
    cache.store_price(&sym, quote(20_000), t2).unwrap();
    assert_eq!(cache.get_price(&sym, t2 + 1).unwrap().price, 20_000);
}

#[test]
fn non_positive_price_never_cached() {
    let mut cache = QuoteCache::new();
    let sym = "ACME".to_string();

    assert_eq!(cache.store_price(&sym, quote(0), 100), Err(TradeError::PriceUnavailable));
    assert_eq!(cache.store_price(&sym, quote(-5), 100), Err(TradeError::PriceUnavailable));
    assert!(cache.get_price(&sym, 100).is_none());

    // An invalid response does not clobber a previously cached value.
    cache.store_price(&sym, quote(500), 200).unwrap();
    assert_eq!(cache.store_price(&sym, quote(0), 210), Err(TradeError::PriceUnavailable));
    assert_eq!(cache.get_price(&sym, 220).unwrap().price, 500);
}

#[test]
fn entries_are_keyed_by_symbol() {
    let mut cache = QuoteCache::new();
    let acme = "ACME".to_string();
    let widget = "WIDGET".to_string();
    cache.store_price(&acme, quote(100), 10).unwrap();
    cache.store_price(&widget, quote(200), 10).unwrap();

    assert_eq!(cache.get_price(&acme, 11).unwrap().price, 100);
    assert_eq!(cache.get_price(&widget, 11).unwrap().price, 200);
    assert!(cache.get_price(&"MISSING".to_string(), 11).is_none());

    cache.store_price(&acme, quote(111), 12).unwrap();
    assert_eq!(cache.get_price(&acme, 13).unwrap().price, 111);
    assert_eq!(cache.get_price(&widget, 13).unwrap().price, 200);
}

#[test]
fn profile_cached_for_a_day() {
    let mut cache = QuoteCache::new();
    let sym = "ACME".to_string();
    let t: u64 = 5_000;

    assert!(cache.get_profile(&sym, t).is_none());
    cache.store_profile(&sym, profile("Acme Corp"), t);

    let hit = cache.get_profile(&sym, t + PROFILE_TTL_SECS - 1).unwrap();
    assert_eq!(hit.name, "Acme Corp");
    assert_eq!(hit.logo, "https://example.com/logo.png");
    assert_eq!(hit.finnhub_industry, "Technology");

    assert!(cache.get_profile(&sym, t + PROFILE_TTL_SECS).is_none());
}

#[test]
fn profile_overwritten_by_new_fetch() {
    let mut cache = QuoteCache::new();
    let sym = "ACME".to_string();
    cache.store_profile(&sym, profile("Old Name"), 0);
    cache.store_profile(&sym, profile("New Name"), 10);
    assert_eq!(cache.get_profile(&sym, 11).unwrap().name, "New Name");
}

#[test]
fn clock_regression_is_a_miss() {
    // An entry "fetched in the future" is not served: freshness
    // requires the fetch time to be at or before the lookup time.
    let mut cache = QuoteCache::new();
    let sym = "ACME".to_string();
    cache.store_price(&sym, quote(100), 1_000).unwrap();
    assert!(cache.get_price(&sym, 999).is_none());
}
