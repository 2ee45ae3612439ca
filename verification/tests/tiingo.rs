use market_cli::tiingo::trade_timestamp_ms;
use market_cli::tiingo::{daily_prices_url, intraday_prices_url, SEARCH_URL};
use market_cli::tiingo::{
    check_status, format_search_results, is_intraday, minute_label, resolve_token,
    validate_date_format, validate_frequency, validate_prices_args, SearchResult, TiingoError,
    VALID_FREQUENCIES,
};

#[test]
fn tiingo_frequencies() {
    for f in VALID_FREQUENCIES {
        assert!(validate_frequency(f).is_ok());
    }
    assert!(matches!(validate_frequency("4hour"), Err(TiingoError::InvalidFrequency(_))));
    assert!(is_intraday("1min"));
    assert!(is_intraday("1hour"));
    assert!(!is_intraday("daily"));
    assert!(!is_intraday("weekly"));
}

#[test]
fn tiingo_dates_and_prices_args() {
    assert!(validate_date_format("2024-12-31").is_ok());
    assert!(matches!(validate_date_format("2024-12-32"), Err(TiingoError::InvalidDate(_))));
    assert_eq!(validate_prices_args("5min", "2024-01-01", "2024-02-01").unwrap(), true);
    assert_eq!(validate_prices_args("daily", "2023-12-31", "2024-01-01").unwrap(), false);
    assert!(matches!(validate_prices_args("daily", "2024-01-01", "2023-12-31"), Err(TiingoError::InvalidDateRange)));
    assert!(matches!(validate_prices_args("x", "2024-01-01", "2023-12-31"), Err(TiingoError::InvalidFrequency(_))));
    assert!(matches!(validate_prices_args("daily", "2024-01-01", "nope"), Err(TiingoError::InvalidDate(_))));
}

#[test]
fn tiingo_token_and_status() {
    assert_eq!(resolve_token(Some(" a ".to_string()), None).unwrap(), " a ");
    assert!(matches!(resolve_token(None, None), Err(TiingoError::NoApiKey)));
    assert!(check_status(200, "").is_ok());
    assert!(matches!(check_status(401, ""), Err(TiingoError::Unauthorized)));
    assert!(matches!(check_status(429, ""), Err(TiingoError::RateLimited)));
    match check_status(403, "forbidden") {
        Err(TiingoError::HttpError { status, message }) => {
            assert_eq!(status, 403);
            assert_eq!(message, "forbidden");
        }
        _ => panic!("expected HttpError"),
    }
}

#[test]
fn tiingo_search_table_and_labels() {
    assert_eq!(format_search_results(&[]), "No symbols matched the query.");
    let rows = vec![SearchResult {
        ticker: "btcusd".to_string(),
        name: "Bitcoin".to_string(),
        exchange: "".to_string(),
        asset_type: "Crypto".to_string(),
    }];
    assert_eq!(
        format_search_results(&rows),
        "TICKER    NAME       EXCHANGE    TYPE  \nbtcusd    Bitcoin                Crypto"
    );
    let listed = vec![SearchResult {
        ticker: "AAPL".to_string(),
        name: "Apple Inc".to_string(),
        exchange: "NASDAQ".to_string(),
        asset_type: "Stock".to_string(),
    }];
    assert_eq!(
        format_search_results(&listed),
        "TICKER    NAME         EXCHANGE    TYPE \nAAPL      Apple Inc    NASDAQ      Stock"
    );
    assert_eq!(minute_label(60), "01:00");
}

#[test]
fn live_trade_timestamps() {
    assert_eq!(trade_timestamp_ms("2019-01-30T18:03:40+00:00"), Some(1_548_871_420_000));
    assert_eq!(trade_timestamp_ms("2019-01-30T18:03:40.123456+00:00"), Some(1_548_871_420_123));
    assert_eq!(trade_timestamp_ms("1969-12-31T23:59:59.999Z"), Some(u64::MAX));
    assert_eq!(trade_timestamp_ms("not a date"), None);
}

#[test]
fn price_urls() {
    assert_eq!(daily_prices_url("AAPL"), "https://api.tiingo.com/tiingo/daily/AAPL/prices");
    assert_eq!(intraday_prices_url("AAPL"), "https://api.tiingo.com/iex/AAPL/prices");
    assert_eq!(SEARCH_URL, "https://api.tiingo.com/tiingo/utilities/search");
}
