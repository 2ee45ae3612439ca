use market_cli::market::{ massive_bar_span, massive_candles_url, massive_search_url, tiingo_daily_url, tiingo_intraday_url, tiingo_stream_url, };
use market_cli::market::tiingo_exact_match;
use market_cli::market::tiingo_bar_span;
use market_cli::time::Instant;
use market_cli::market::{
    check_status, massive_bar_size_of, massive_channels, massive_market_name, massive_stream_url,
    massive_ticker, parse_massive_market, parse_tiingo_market, tiingo_frequency_of,
    tiingo_market_path_of, Asset, Market, MassiveTickerSearchResult, StatusError, Ticker,
    TiingoSearchResult, Timeframe,
};

#[test]
fn timeframe_lengths() {
    assert_eq!(Timeframe::M1.secs(), 60);
    assert_eq!(Timeframe::M5.secs(), 300);
    assert_eq!(Timeframe::M15.secs(), 900);
    assert_eq!(Timeframe::H1.secs(), 3600);
    assert_eq!(Timeframe::H4.secs(), 14400);
    assert_eq!(Timeframe::D1.secs(), 86400);
}

#[test]
fn tickers() {
    let t = Ticker::from("EURUSD");
    assert_eq!(t.as_str(), "EURUSD");
    assert_eq!(t.prefix("C:").as_str(), "C:EURUSD");
    assert_eq!(massive_ticker(&t, Market::Forex).as_str(), "C:EURUSD");
    assert_eq!(massive_ticker(&t, Market::Stock).as_str(), "EURUSD");
    assert_eq!(massive_ticker(&t, Market::Crypto).as_str(), "EURUSD");
}

#[test]
fn massive_spellings() {
    assert_eq!(massive_market_name(Market::Forex), "fx");
    assert_eq!(massive_market_name(Market::Stock), "stocks");
    assert_eq!(massive_market_name(Market::Crypto), "crypto");
    assert_eq!(parse_massive_market("fx"), Some(Market::Forex));
    assert_eq!(parse_massive_market("otc"), None);
    assert_eq!(massive_bar_size_of(Timeframe::H4), (4, "hour"));
    assert_eq!(massive_bar_size_of(Timeframe::M15), (15, "minute"));
    assert_eq!(massive_bar_size_of(Timeframe::D1), (1, "day"));
    assert_eq!(massive_stream_url(Market::Stock), "wss://socket.massive.com//stocks");
    let channels = massive_channels(&[Ticker::from("EURUSD"), Ticker::from("GBPUSD")], Market::Forex);
    let names: Vec<&str> = channels.iter().map(|t| t.as_str()).collect();
    assert_eq!(names, vec!["CA.C:EURUSD", "CA.C:GBPUSD"]);
    let stocks = massive_channels(&[Ticker::from("AAPL")], Market::Stock);
    assert_eq!(stocks[0].as_str(), "AM.AAPL");
}

#[test]
fn tiingo_spellings() {
    assert_eq!(tiingo_frequency_of(Timeframe::H4), Some("4hour"));
    assert_eq!(tiingo_frequency_of(Timeframe::D1), None);
    assert_eq!(tiingo_market_path_of(Market::Stock), "iex");
    assert_eq!(parse_tiingo_market("CRYPTO"), Some(Market::Crypto));
    assert_eq!(parse_tiingo_market("crypto"), None);
}

#[test]
fn assets_from_search_results() {
    let a = Asset::from_massive(MassiveTickerSearchResult {
        name: "Euro".to_string(),
        ticker: Ticker::from("C:EURUSD"),
        market: "fx".to_string(),
    });
    assert_eq!(a.ticker.as_str(), "C:EURUSD");
    assert_eq!(a.name, "Euro");
    assert_eq!(a.market, Market::Forex);
    let b = Asset::from_tiingo(TiingoSearchResult {
        name: "Apple".to_string(),
        ticker: Ticker::from("aapl"),
        perma_ticker: "US000000000038".to_string(),
        open_figicomposite: None,
        asset_type: "STOCK".to_string(),
        is_active: true,
        country_code: "US".to_string(),
    });
    assert_eq!(b.market, Market::Stock);
    assert_eq!(b.name, "Apple");
}

#[test]
fn shared_status_check() {
    assert!(check_status(200, "").is_ok());
    assert!(matches!(check_status(401, ""), Err(StatusError::Unauthorized)));
    assert!(matches!(check_status(403, ""), Err(StatusError::Unauthorized)));
    assert!(matches!(check_status(429, ""), Err(StatusError::RateLimited)));
    match check_status(500, "e") {
        Err(StatusError::HttpError { status, message }) => {
            assert_eq!(status, 500);
            assert_eq!(message, "e");
        }
        _ => panic!("expected HttpError"),
    }
}

#[test]
fn provider_urls() {
    let t = Ticker::from("EURUSD");
    assert_eq!(massive_search_url(&t, Market::Forex), "https://api.massive.com//v3/reference/tickers/C:EURUSD");
    assert_eq!(
        massive_candles_url(&t, Market::Forex, Timeframe::H4, "2024-01-01", "2024-02-01"),
        "https://api.massive.com//v2/aggs/ticker/C:EURUSD/range/4/hour/2024-01-01/2024-02-01"
    );
    assert_eq!(
        massive_candles_url(&Ticker::from("AAPL"), Market::Stock, Timeframe::M15, "a", "b"),
        "https://api.massive.com//v2/aggs/ticker/AAPL/range/15/minute/a/b"
    );
    assert_eq!(massive_bar_span(1_000, Timeframe::M5), (1_000, 301_000));
    assert_eq!(tiingo_daily_url(&Ticker::from("aapl")), "https://api.tiingo.com/tiingo/daily/aapl/prices");
    assert_eq!(tiingo_intraday_url(Market::Crypto, &Ticker::from("btcusd")), "https://api.tiingo.com/crypto/btcusd/prices");
    assert_eq!(tiingo_stream_url(Market::Forex), "wss://api.tiingo.com/fx");
}

#[test]
fn tiingo_search_picks_first_exact_match() {
    let result = |t: &str| TiingoSearchResult {
        name: "n".to_string(),
        ticker: Ticker::from(t),
        perma_ticker: "p".to_string(),
        open_figicomposite: None,
        asset_type: "STOCK".to_string(),
        is_active: true,
        country_code: "us".to_string(),
    };
    let results = vec![result("AAP"), result("AAPL"), result("AAPL")];
    assert_eq!(tiingo_exact_match(&results, &Ticker::from("AAPL")), Some(1));
    assert_eq!(tiingo_exact_match(&results, &Ticker::from("MSFT")), None);
}

#[test]
fn tiingo_bar_spans() {
    let (start, end) = tiingo_bar_span("2024-03-01T14:30:00.000Z", Timeframe::M5).unwrap();
    assert_eq!(start, Instant { secs: 1_709_303_400, nanos: 0 });
    assert_eq!(end, Instant { secs: 1_709_303_700, nanos: 0 });
    assert!(tiingo_bar_span("2024-03-01", Timeframe::M5).is_none());
}
