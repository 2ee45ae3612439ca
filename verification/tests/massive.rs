use market_cli::massive::{bars_url, conversion_url, last_quote_url, search_url, snapshot_url, BASE_URL};
use market_cli::massive::{
    check_status, format_search_results, format_subscribe_params, format_timestamp_ms,
    resolve_token, validate_bars_args, validate_date_format, validate_date_range, validate_limit,
    validate_precision, validate_sort, validate_timespan, ws_minute_time, ForexTicker, MassiveError,
    VALID_SORT_ORDERS, VALID_TIMESPANS,
};

#[test]
fn none_flag_and_unset_env_returns_no_api_key() {
    let result = resolve_token(None, None);
    assert!(result.is_err());
}

#[test]
fn massive_token_resolution() {
    assert_eq!(resolve_token(Some("  key\t".to_string()), Some("env".to_string())).unwrap(), "key");
    assert_eq!(resolve_token(None, Some(" env ".to_string())).unwrap(), "env");
    assert!(matches!(resolve_token(Some("  ".to_string()), Some("env".to_string())), Err(MassiveError::NoApiKey)));
    assert!(matches!(resolve_token(None, Some("\n".to_string())), Err(MassiveError::NoApiKey)));
}

#[test]
fn massive_timespans_and_sorts() {
    for t in VALID_TIMESPANS {
        assert!(validate_timespan(t).is_ok());
    }
    for s in VALID_SORT_ORDERS {
        assert!(validate_sort(s).is_ok());
    }
    assert!(matches!(validate_timespan("days"), Err(MassiveError::InvalidTimespan(_))));
    assert!(matches!(validate_sort("DESC"), Err(MassiveError::InvalidSort(_))));
}

#[test]
fn massive_limit_boundaries() {
    assert!(validate_limit(1, 1).is_ok());
    assert!(validate_limit(1000, 1000).is_ok());
    assert!(matches!(validate_limit(0, 10), Err(MassiveError::InvalidLimit { value: 0, max: 10 })));
    assert!(matches!(validate_limit(11, 10), Err(MassiveError::InvalidLimit { value: 11, max: 10 })));
    assert!(validate_limit(5, 0).is_err());
}

#[test]
fn massive_dates() {
    assert!(validate_date_format("2024-02-29").is_ok());
    assert!(matches!(validate_date_format("2023-02-29"), Err(MassiveError::InvalidDate(_))));
    assert!(validate_date_range("2024-01-01", "2024-01-02").is_ok());
    assert!(matches!(validate_date_range("2024-01-02", "2024-01-01"), Err(MassiveError::InvalidDateRange)));
    assert!(matches!(validate_date_range("2024-01-01", "2024-01-01"), Err(MassiveError::InvalidDateRange)));
    match validate_date_range("2024-01-01", "bad") {
        Err(MassiveError::InvalidDate(d)) => assert_eq!(d, "bad"),
        _ => panic!("expected InvalidDate"),
    }
}

#[test]
fn massive_status_mapping() {
    assert!(check_status(299, "").is_ok());
    assert!(matches!(check_status(401, "b"), Err(MassiveError::Unauthorized)));
    assert!(matches!(check_status(403, "b"), Err(MassiveError::PremiumRequired)));
    assert!(matches!(check_status(429, "b"), Err(MassiveError::RateLimited)));
    match check_status(301, "moved") {
        Err(MassiveError::HttpError { status, message }) => {
            assert_eq!(status, 301);
            assert_eq!(message, "moved");
        }
        _ => panic!("expected HttpError"),
    }
}

#[test]
fn massive_subscribe_params() {
    let pairs = vec!["C:EUR-USD".to_string(), "C:GBP-USD".to_string()];
    assert_eq!(format_subscribe_params(&pairs), "CA.C:EUR-USD,CA.C:GBP-USD");
    assert_eq!(format_subscribe_params(&pairs[..1]), "CA.C:EUR-USD");
    let segments: Vec<String> = format_subscribe_params(&pairs).split(',').map(|s| s.to_string()).collect();
    assert_eq!(segments.len(), pairs.len());
}

#[test]
fn massive_timestamps() {
    assert_eq!(format_timestamp_ms(0), "1970-01-01T00:00:00");
    assert_eq!(format_timestamp_ms(1718409600123), "2024-06-15T00:00:00");
    assert_eq!(format_timestamp_ms(u64::MAX), "1969-12-31T23:59:59");
    assert_eq!(format_timestamp_ms(i64::MAX as u64), "INVALID");
    assert_eq!(ws_minute_time(1718409600000 + 3_600_000 * 9 + 60_000 * 7), "09:07");
    assert_eq!(ws_minute_time(i64::MAX as u64), "00:00");
}

#[test]
fn massive_search_table() {
    assert_eq!(format_search_results(&[]), "No symbols matched the query.");
    let results = vec![
        ForexTicker { ticker: "C:EURUSD".to_string(), name: "Euro".to_string(), market: "fx".to_string(), active: true },
        ForexTicker { ticker: "C:X".to_string(), name: "Other".to_string(), market: "fx".to_string(), active: false },
    ];
    let expected = "TICKER      NAME     ACTIVE\nC:EURUSD    Euro     true  \nC:X         Other    false ";
    assert_eq!(format_search_results(&results), expected);
}

#[test]
fn massive_bars_args() {
    assert!(matches!(validate_bars_args(1, "x", "a", "b", "asc", 1), Err(MassiveError::InvalidTimespan(_))));
    assert!(matches!(validate_bars_args(1, "day", "a", "b", "x", 1), Err(MassiveError::InvalidSort(_))));
    assert!(matches!(validate_bars_args(1, "day", "a", "b", "asc", 1), Err(MassiveError::InvalidDate(_))));
    assert!(matches!(
        validate_bars_args(1, "day", "2024-01-01", "2024-01-02", "asc", 50_001),
        Err(MassiveError::InvalidLimit { value: 50_001, max: 50_000 })
    ));
    assert!(matches!(
        validate_bars_args(1, "day", "2024-01-02", "2024-01-01", "asc", 5),
        Err(MassiveError::InvalidDateRange)
    ));
    assert!(matches!(
        validate_bars_args(0, "day", "2024-01-01", "2024-01-02", "asc", 5),
        Err(MassiveError::Other(_))
    ));
    assert!(validate_bars_args(1, "day", "2024-01-01", "2024-01-02", "asc", 5).is_ok());
}

#[test]
fn massive_precision() {
    assert!(validate_precision(0).is_ok());
    assert!(validate_precision(10).is_ok());
    assert!(matches!(validate_precision(11), Err(MassiveError::Other(_))));
}

#[test]
fn massive_request_urls() {
    assert_eq!(search_url(BASE_URL), "https://api.massive.com/v3/reference/tickers");
    assert_eq!(
        bars_url(BASE_URL, "C:EURUSD", 5, "minute", "2024-01-01", "2024-01-02"),
        "https://api.massive.com/v2/aggs/ticker/C:EURUSD/range/5/minute/2024-01-01/2024-01-02"
    );
    assert_eq!(last_quote_url(BASE_URL, "EUR", "USD"), "https://api.massive.com/v1/last_quote/currencies/EUR/USD");
    assert_eq!(conversion_url(BASE_URL, "EUR", "USD"), "https://api.massive.com/v1/conversion/EUR/USD");
    assert_eq!(
        snapshot_url(BASE_URL, "C:EURUSD"),
        "https://api.massive.com/v2/snapshot/locale/global/markets/forex/tickers/C:EURUSD"
    );
}

#[test]
fn subscribe_params_have_one_channel_per_pair() {
    let pairs = vec!["C:EUR-USD".to_string(), "C:GBP-USD".to_string(), "C:USD-JPY".to_string()];
    let params = format_subscribe_params(&pairs);
    let segments: Vec<&str> = params.split(',').collect();
    assert_eq!(segments.len(), pairs.len());
    for (segment, pair) in segments.iter().zip(pairs.iter()) {
        assert_eq!(*segment, format!("CA.{pair}"));
    }
}

#[test]
fn search_output_shows_every_ticker() {
    let results = vec![
        ForexTicker { ticker: "C:EURUSD".to_string(), name: "Euro - United States Dollar".to_string(), market: "fx".to_string(), active: true },
        ForexTicker { ticker: "C:XAUUSD".to_string(), name: "Gold".to_string(), market: "fx".to_string(), active: false },
    ];
    let out = format_search_results(&results);
    for r in &results {
        assert!(out.contains(&r.ticker));
        assert!(out.contains(&r.name));
    }
    assert!(out.contains("true"));
    assert!(out.contains("false"));
}

#[test]
fn ws_minute_time_reads_the_utc_clock() {
    assert_eq!(ws_minute_time(0), "00:00");
    assert_eq!(ws_minute_time(1_718_461_822_000), "14:30");
    assert_eq!(ws_minute_time(86_399_999), "23:59");
    // Out of chrono's range the time falls back to the epoch.
    assert_eq!(ws_minute_time(u64::MAX / 2), "00:00");
}
