use tickrs::client::{
    cookie_from_header, databento_enabled, databento_live_url, databento_volume_string,
    is_live_status, select_live_row, single_result, ApiError, Client, DataKind,
    DatabentoSettings, Version,
};
use tickrs::quote_stream::normalize_symbol;
use tickrs::text::{eq_ignore_ascii_case, i64_to_decimal, trim, u64_to_decimal};

fn settings() -> DatabentoSettings {
    DatabentoSettings {
        enabled: None,
        live_url: None,
        fallback_live_url: None,
        dataset: None,
        live_schema: None,
    }
}

#[test]
fn version_segments() {
    assert_eq!(Version::V1.as_str(), "v1");
    assert_eq!(Version::V7.as_str(), "v7");
    assert_eq!(Version::V8.as_str(), "v8");
    assert_eq!(Version::V10.as_str(), "v10");
}

#[test]
fn yahoo_symbols_for_registered_aliases() {
    assert_eq!(Client::yahoo_symbol("VIX"), "^VIX");
    assert_eq!(Client::yahoo_symbol(" dxy "), "DX-Y.NYB");
    assert_eq!(Client::yahoo_symbol("nvda"), "NVDA");
    assert_eq!(Client::yahoo_symbol("^VIX"), "^VIX");
}

#[test]
fn databento_symbols_for_yahoo_aliases() {
    assert_eq!(Client::databento_symbol("^VIX"), "VIX");
    assert_eq!(Client::databento_symbol("dx-y.nyb"), "DXY");
    assert_eq!(Client::databento_symbol("^gspc"), "GSPC");
    assert_eq!(Client::databento_symbol(" msft"), "MSFT");
}

#[test]
fn databento_symbol_matches_stream_key() {
    for s in ["^VIX", "VIX", "dx-y.nyb", " ^^spy ", "es=f", "", "^"] {
        assert_eq!(Client::databento_symbol(s), normalize_symbol(s));
    }
}

#[test]
fn registered_board_round_trips() {
    let board = [
        "SPY", "QQQ", "IWM", "VIX", "TLT", "DXY", "XLK", "SMH", "XLY", "XLC", "XLF", "XLE",
        "NVDA", "AAPL", "MSFT", "AMZN", "META", "GOOGL", "TSLA", "AVGO",
    ];
    for s in board {
        let yahoo = Client::yahoo_symbol(s);
        assert_eq!(Client::databento_symbol(&yahoo), s);
    }
}

#[test]
fn url_text_layout() {
    let client = Client::new();
    assert_eq!(
        client.url_text(Version::V8, "finance/chart/SPY", Some("a=1")),
        "https://query1.finance.yahoo.com/v8/finance/chart/SPY?a=1"
    );
    assert_eq!(
        client.url_text(Version::V1, "test/getcrumb", None),
        "https://query1.finance.yahoo.com/v1/test/getcrumb"
    );
}

#[test]
fn chart_request_url() {
    let client = Client::new();
    let uri = client.chart_url("vix", "1m", "1d", true).unwrap();
    assert_eq!(
        uri.to_string(),
        "https://query1.finance.yahoo.com/v8/finance/chart/^VIX?interval=1m&range=1d&includePrePost=true"
    );
    let uri = client.chart_url("SPY", "5m", "5d", false).unwrap();
    assert_eq!(
        uri.to_string(),
        "https://query1.finance.yahoo.com/v8/finance/chart/SPY?interval=5m&range=5d"
    );
}

#[test]
fn company_and_options_urls() {
    let client = Client::new();
    let uri = client.company_url("aapl", "ab/c").unwrap();
    assert_eq!(
        uri.to_string(),
        "https://query1.finance.yahoo.com/v10/finance/quoteSummary/AAPL?modules=price%2CassetProfile&crumb=ab%2Fc"
    );
    let uri = client.options_dates_url("SPY").unwrap();
    assert_eq!(uri.to_string(), "https://query1.finance.yahoo.com/v7/finance/options/SPY");
    let uri = client.options_url("SPY", 1700000000).unwrap();
    assert_eq!(
        uri.to_string(),
        "https://query1.finance.yahoo.com/v7/finance/options/SPY?date=1700000000"
    );
    let uri = client.crumb_url().unwrap();
    assert_eq!(uri.to_string(), "https://query1.finance.yahoo.com/v1/test/getcrumb");
}

#[test]
fn invalid_uri_is_reported() {
    let client = Client::new();
    let e = client
        .get_url(Version::V7, "finance/options/a b", None)
        .unwrap_err();
    assert!(matches!(e, ApiError::InvalidUri { .. }));
    assert_eq!(e.message(), "invalid uri character");
}

#[test]
fn databento_switch_spellings() {
    assert!(databento_enabled(None));
    assert!(databento_enabled(Some("1")));
    assert!(databento_enabled(Some("yes")));
    assert!(databento_enabled(Some("Off")));
    for off in ["0", "false", "FALSE", "no", "NO", "off", "OFF"] {
        assert!(!databento_enabled(Some(off)));
    }
}

#[test]
fn databento_default_request() {
    let uri = databento_live_url(&settings(), "^VIX").unwrap();
    assert_eq!(
        uri.to_string(),
        "http://127.0.0.1:6910/live/get_ws_data?symbol=VIX&dataset=EQUS.MINI&live_schema=mbp-1"
    );
}

#[test]
fn databento_configured_request() {
    let mut s = settings();
    s.fallback_live_url = Some(String::from("http://bridge:1/live?token=x"));
    s.dataset = Some(String::from("XNAS.ITCH"));
    s.live_schema = Some(String::from("trades"));
    let uri = databento_live_url(&s, "dx-y.nyb").unwrap();
    assert_eq!(
        uri.to_string(),
        "http://bridge:1/live?token=x&symbol=DXY&dataset=XNAS.ITCH&live_schema=trades"
    );
    s.live_url = Some(String::from("http://primary:2/get"));
    let uri = databento_live_url(&s, "spy").unwrap();
    assert_eq!(
        uri.to_string(),
        "http://primary:2/get?symbol=SPY&dataset=XNAS.ITCH&live_schema=trades"
    );
}

#[test]
fn databento_errors() {
    let mut s = settings();
    s.enabled = Some(String::from("off"));
    assert!(matches!(databento_live_url(&s, "SPY"), Err(ApiError::DatabentoDisabled)));
    let mut s = settings();
    s.live_url = Some(String::from("  "));
    assert!(matches!(databento_live_url(&s, "SPY"), Err(ApiError::EmptyLiveUrl)));
    let e = databento_live_url(&s, "SPY").unwrap_err();
    assert_eq!(e.message(), "Databento live URL is empty");
}

#[test]
fn live_row_selection() {
    let rows = vec![String::from("qqq"), String::from("vix"), String::from("VIX")];
    assert_eq!(select_live_row(&rows, "^VIX").unwrap(), 1);
    assert_eq!(select_live_row(&rows, "QQQ").unwrap(), 0);
    let e = select_live_row(&rows, "SPY").unwrap_err();
    assert!(matches!(e, ApiError::NoLiveRow { .. }));
    assert_eq!(e.message(), "No Databento live row for SPY");
}

#[test]
fn single_result_rules() {
    let r = single_result(DataKind::Chart, "SPY", None, Some(vec![7u8]));
    assert_eq!(r.unwrap(), 7);
    let e = single_result(DataKind::Chart, "SPY", None, Some(vec![1u8, 2])).unwrap_err();
    assert_eq!(e.message(), "Failed to get chart data for SPY");
    let e = single_result::<u8>(DataKind::Options, "SPY", None, None).unwrap_err();
    assert_eq!(e.message(), "Failed to get options data for SPY");
    let e = single_result(
        DataKind::Company,
        "AMD",
        Some(String::from("Not Found")),
        Some(vec![1u8]),
    )
    .unwrap_err();
    assert_eq!(e.message(), "Error getting company data for AMD: Not Found");
}

#[test]
fn cookie_header_rules() {
    assert_eq!(
        cookie_from_header(Some("A3=d=AQAB; Expires=Tue")).unwrap(),
        "A3=d=AQAB"
    );
    assert_eq!(cookie_from_header(Some(";x")).unwrap(), "");
    let e = cookie_from_header(Some("A3=d")).unwrap_err();
    assert_eq!(e.message(), "Couldn't fetch cookie");
    assert!(matches!(cookie_from_header(None), Err(ApiError::MissingCookie)));
}

#[test]
fn databento_row_helpers() {
    assert!(is_live_status(Some("live")));
    assert!(!is_live_status(Some("LIVE")));
    assert!(!is_live_status(None));
    assert_eq!(databento_volume_string(None, Some(3), Some(4)), "3");
    assert_eq!(databento_volume_string(Some(9), Some(3), Some(4)), "9");
    assert_eq!(databento_volume_string(None, None, Some(4)), "4");
    assert_eq!(databento_volume_string(None, None, None), "");
    assert_eq!(ApiError::DatabentoDisabled.message(), "Databento live overlay is disabled");
}

#[test]
fn text_primitives() {
    assert_eq!(trim("\t a b \r\n"), "a b");
    assert_eq!(trim(""), "");
    assert!(eq_ignore_ascii_case("SpY", "spy"));
    assert!(!eq_ignore_ascii_case("spy", "spy "));
    assert!(!eq_ignore_ascii_case("é", "É"));
    assert_eq!(u64_to_decimal(0), "0");
    assert_eq!(u64_to_decimal(90210), "90210");
    assert_eq!(i64_to_decimal(-42), "-42");
    assert_eq!(i64_to_decimal(i64::MIN), i64::MIN.to_string());
    assert_eq!(i64_to_decimal(i64::MAX), i64::MAX.to_string());
}

#[test]
fn yahoo_symbol_keeps_stream_key() {
    for s in ["VIX", "dxy", " spy ", "^gspc", "BTC-USD", "es=f"] {
        let yahoo = Client::yahoo_symbol(s);
        assert_eq!(normalize_symbol(&yahoo), normalize_symbol(s));
    }
}
