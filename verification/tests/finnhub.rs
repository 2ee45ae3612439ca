use market_cli::finnhub::is_trade_message;
use market_cli::finnhub::{candles_url, search_url, BASE_URL};
use market_cli::finnhub::{
    check_candle_params, check_status, format_candle_timestamp, format_search_results, minute_label,
    parse_date_to_unix, resolve_token, stream_url, validate_resolution, FinnhubError, SearchResult,
    VALID_RESOLUTIONS,
};

#[test]
fn finnhub_resolutions_accepted() {
    for r in VALID_RESOLUTIONS {
        assert!(validate_resolution(r).is_ok());
    }
}

#[test]
fn finnhub_resolution_rejected() {
    match validate_resolution("2") {
        Err(FinnhubError::InvalidResolution(r)) => assert_eq!(r, "2"),
        _ => panic!("expected InvalidResolution"),
    }
    assert!(validate_resolution("d").is_err());
    assert!(validate_resolution("").is_err());
}

#[test]
fn finnhub_token_kept_untrimmed() {
    assert_eq!(resolve_token(Some(" t ".to_string()), None).unwrap(), " t ");
    assert_eq!(resolve_token(None, Some("env".to_string())).unwrap(), "env");
    assert!(matches!(resolve_token(Some(" \t".to_string()), None), Err(FinnhubError::NoApiKey)));
    assert!(matches!(resolve_token(None, None), Err(FinnhubError::NoApiKey)));
}

#[test]
fn finnhub_status_mapping() {
    assert!(check_status(200, "").is_ok());
    assert!(matches!(check_status(401, ""), Err(FinnhubError::Unauthorized)));
    assert!(matches!(check_status(403, ""), Err(FinnhubError::PremiumRequired)));
    assert!(matches!(check_status(429, ""), Err(FinnhubError::RateLimited)));
    match check_status(404, "not found") {
        Err(FinnhubError::HttpError { status, message }) => {
            assert_eq!(status, 404);
            assert_eq!(message, "not found");
        }
        _ => panic!("expected HttpError"),
    }
}

#[test]
fn finnhub_candle_params() {
    assert!(matches!(check_candle_params("7", 0, 1), Err(FinnhubError::InvalidResolution(_))));
    assert!(matches!(check_candle_params("D", 5, 5), Err(FinnhubError::InvalidDateRange)));
    assert!(matches!(check_candle_params("D", 6, 5), Err(FinnhubError::InvalidDateRange)));
    assert!(check_candle_params("D", 4, 5).is_ok());
}

#[test]
fn finnhub_dates() {
    assert_eq!(parse_date_to_unix("2024-01-01").unwrap(), 1704067200);
    match parse_date_to_unix("2024-1-x") {
        Err(FinnhubError::InvalidDate(d)) => assert_eq!(d, "2024-1-x"),
        _ => panic!("expected InvalidDate"),
    }
}

#[test]
fn finnhub_candle_timestamps() {
    assert_eq!(format_candle_timestamp(0), "1970-01-01T00:00:00");
    assert_eq!(format_candle_timestamp(1704067200), "2024-01-01T00:00:00");
    assert_eq!(format_candle_timestamp(i64::MAX), "INVALID");
}

#[test]
fn finnhub_minute_labels() {
    assert_eq!(minute_label(0), "00:00");
    // 2024-01-01T13:45 UTC
    assert_eq!(minute_label(1704067200 / 60 + 13 * 60 + 45), "13:45");
}

#[test]
fn finnhub_search_table() {
    assert_eq!(format_search_results(&[]), "No symbols matched the query.");
    let results = vec![SearchResult {
        description: "APPLE INC".to_string(),
        display_symbol: "AAPL".to_string(),
        symbol: "AAPL".to_string(),
        security_type: "Common Stock".to_string(),
    }];
    let expected = format!(
        "{:<6}    {:<7}    {:<12}    {}\n{:<6}    {:<7}    {:<12}    {}",
        "SYMBOL", "DISPLAY", "TYPE", "DESCRIPTION", "AAPL", "AAPL", "Common Stock", "APPLE INC"
    );
    assert_eq!(format_search_results(&results), expected);
}

#[test]
fn finnhub_stream_url() {
    assert_eq!(stream_url("abc"), "wss://ws.finnhub.io/?token=abc");
}

#[test]
fn finnhub_request_urls() {
    assert_eq!(search_url(BASE_URL), "https://finnhub.io/api/v1/search");
    assert_eq!(candles_url(BASE_URL), "https://finnhub.io/api/v1/stock/candle");
}

#[test]
fn only_trade_messages_carry_trades() {
    assert!(is_trade_message("trade"));
    assert!(!is_trade_message("ping"));
    assert!(!is_trade_message("Trade"));
}
