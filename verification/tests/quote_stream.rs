use tickrs::quote_stream::{
    is_liveish, non_empty, normalize_symbol, offer_update, parse_endpoint, quote_volume_string,
    stream_spec, volume_string, QuoteCache, StreamEndpoint,
};

#[test]
fn normalizes_index_aliases() {
    assert_eq!(normalize_symbol("^VIX"), "VIX");
    assert_eq!(normalize_symbol("dx-y.nyb"), "DXY");
}

#[test]
fn normalize_trims_and_uppercases() {
    assert_eq!(normalize_symbol("  aapl \n"), "AAPL");
    assert_eq!(normalize_symbol("^^gspc"), "GSPC");
    assert_eq!(normalize_symbol("   "), "");
    assert_eq!(normalize_symbol("\u{3000}spy\u{a0}"), "SPY");
}

#[test]
fn liveish_status_rules() {
    assert!(is_liveish(None));
    assert!(is_liveish(Some("live")));
    assert!(is_liveish(Some("LIVE")));
    assert!(is_liveish(Some("Live")));
    assert!(!is_liveish(Some("stale")));
    assert!(!is_liveish(Some("live ")));
    assert!(!is_liveish(Some("")));
}

#[test]
fn quote_volume_prefers_volume_over_size() {
    assert_eq!(quote_volume_string(None, Some(7)), "7");
    assert_eq!(quote_volume_string(Some(1200), Some(7)), "1200");
    assert_eq!(quote_volume_string(None, None), "");
    assert_eq!(volume_string(Some(0)), "0");
    assert_eq!(volume_string(Some(u64::MAX)), u64::MAX.to_string());
    assert_eq!(volume_string(Some(1_000_000_007)), "1000000007");
}

#[test]
fn non_empty_filters_blank_volume() {
    assert_eq!(non_empty(String::from("12")), Some(String::from("12")));
    assert_eq!(non_empty(String::new()), None);
}

#[test]
fn endpoints_by_prefix() {
    assert_eq!(
        parse_endpoint("unix:///run/quotes.sock"),
        StreamEndpoint::Unix(String::from("/run/quotes.sock"))
    );
    assert_eq!(
        parse_endpoint("tcp://127.0.0.1:7000"),
        StreamEndpoint::Tcp(String::from("127.0.0.1:7000"))
    );
    assert_eq!(
        parse_endpoint("localhost:7000"),
        StreamEndpoint::Tcp(String::from("localhost:7000"))
    );
    assert_eq!(parse_endpoint("unix:/x"), StreamEndpoint::Tcp(String::from("unix:/x")));
}

#[test]
fn stream_spec_requires_non_blank_value() {
    assert_eq!(stream_spec(None), None);
    assert_eq!(stream_spec(Some(String::from("  \t"))), None);
    assert_eq!(
        stream_spec(Some(String::from(" tcp://h:1 "))),
        Some(String::from(" tcp://h:1 "))
    );
}

#[test]
fn cache_read_after_write() {
    let mut cache: QuoteCache<u32> = QuoteCache::new();
    assert!(offer_update(&mut cache, Some("quote"), "aapl", true, 1));
    assert_eq!(cache.latest("AAPL"), Some(&1));
    assert_eq!(cache.latest(" aapl "), Some(&1));
    assert!(offer_update(&mut cache, None, "AAPL", true, 2));
    assert_eq!(cache.latest("aapl"), Some(&2));
    assert_eq!(cache.len(), 1);
}

#[test]
fn cache_aliases_share_a_key() {
    let mut cache: QuoteCache<u32> = QuoteCache::new();
    assert!(offer_update(&mut cache, None, "DX-Y.NYB", true, 5));
    assert_eq!(cache.latest("dxy"), Some(&5));
    assert!(offer_update(&mut cache, None, "^VIX", true, 6));
    assert_eq!(cache.latest("VIX"), Some(&6));
    assert_eq!(cache.get("VIX"), Some(&6));
    assert_eq!(cache.len(), 2);
}

#[test]
fn cache_other_symbols_untouched() {
    let mut cache: QuoteCache<u32> = QuoteCache::new();
    assert!(offer_update(&mut cache, None, "SPY", true, 1));
    assert!(offer_update(&mut cache, None, "QQQ", true, 2));
    assert_eq!(cache.latest("SPY"), Some(&1));
    assert_eq!(cache.latest("QQQ"), Some(&2));
    assert_eq!(cache.latest("IWM"), None);
}

#[test]
fn dropped_updates_leave_cache_alone() {
    let mut cache: QuoteCache<u32> = QuoteCache::new();
    assert!(!offer_update(&mut cache, Some("heartbeat"), "SPY", true, 1));
    assert!(!offer_update(&mut cache, None, "   ", true, 2));
    assert!(!offer_update(&mut cache, None, "SPY", false, 3));
    assert!(!offer_update(&mut cache, None, "^^^", true, 4));
    assert_eq!(cache.len(), 0);
    assert_eq!(cache.latest("SPY"), None);
    assert!(offer_update(&mut cache, Some("Heartbeat"), "SPY", true, 5));
    assert_eq!(cache.latest("SPY"), Some(&5));
}

#[test]
fn stream_key_ignores_ascii_case_of_symbol() {
    for s in ["spy", " Dx-Y.nyb", "^vix", "Brk.b", "straße", "^éa\u{a0}", "ǰx"] {
        let key = normalize_symbol(s);
        assert_eq!(normalize_symbol(&s.to_ascii_lowercase()), key);
        assert_eq!(normalize_symbol(&s.to_ascii_uppercase()), key);
        assert!(!key.chars().any(|c| c.is_ascii_lowercase()));
        assert!(!key.starts_with('^'));
    }
}
