use market_cli::finage::{
    bars_url, check_status, format_search_results, format_timestamp_ms, parse_date_to_unix,
    resolve_token, search_url, stream_url, subscribe_symbols, validate_bars_args, validate_limit,
    validate_market, validate_multiplier, validate_sort, validate_symbol_count, validate_timespan,
    FinageError, SymbolEntry, BASE_URL, VALID_MARKETS, VALID_TIMESPANS,
};

#[test]
fn test_validate_timespan_valid() {
    for ts in VALID_TIMESPANS {
        assert!(validate_timespan(ts).is_ok());
    }
}

#[test]
fn test_validate_timespan_invalid() {
    assert!(validate_timespan("daily").is_err());
    assert!(validate_timespan("").is_err());
    assert!(validate_timespan("MINUTE").is_err());
}

#[test]
fn test_validate_sort_valid() {
    assert!(validate_sort("asc").is_ok());
    assert!(validate_sort("desc").is_ok());
}

#[test]
fn test_validate_sort_invalid() {
    assert!(validate_sort("ascending").is_err());
    assert!(validate_sort("").is_err());
}

#[test]
fn test_validate_multiplier_valid() {
    assert!(validate_multiplier(1).is_ok());
    assert!(validate_multiplier(720).is_ok());
    assert!(validate_multiplier(1440).is_ok());
}

#[test]
fn test_validate_multiplier_invalid() {
    assert!(validate_multiplier(0).is_err());
    assert!(validate_multiplier(1441).is_err());
}

#[test]
fn test_validate_limit_valid() {
    assert!(validate_limit(1).is_ok());
    assert!(validate_limit(100).is_ok());
    assert!(validate_limit(50000).is_ok());
}

#[test]
fn test_validate_limit_invalid() {
    assert!(validate_limit(0).is_err());
    assert!(validate_limit(50001).is_err());
}

#[test]
fn test_validate_market_valid() {
    for m in VALID_MARKETS {
        assert!(validate_market(m).is_ok());
    }
}

#[test]
fn test_validate_market_invalid() {
    assert!(validate_market("stocks").is_err());
    assert!(validate_market("").is_err());
}

#[test]
fn test_parse_date_to_unix_valid() {
    // 2024-01-01 00:00:00 UTC = 1704067200
    let ts = parse_date_to_unix("2024-01-01").unwrap();
    assert_eq!(ts, 1704067200);
}

#[test]
fn test_parse_date_to_unix_invalid_format() {
    assert!(parse_date_to_unix("01-01-2024").is_err());
    assert!(parse_date_to_unix("2024/01/01").is_err());
    assert!(parse_date_to_unix("not-a-date").is_err());
}

#[test]
fn test_parse_date_to_unix_invalid_calendar() {
    // Feb 30 doesn't exist
    assert!(parse_date_to_unix("2024-02-30").is_err());
    // Month 13 doesn't exist
    assert!(parse_date_to_unix("2024-13-01").is_err());
}

#[test]
fn resolve_token_uses_flag_when_provided() {
    let result = resolve_token(Some("my-token".to_string()), None);
    assert_eq!(result.unwrap(), "my-token");
}

#[test]
fn resolve_token_trims_whitespace() {
    let result = resolve_token(Some("  my-token  ".to_string()), None);
    assert_eq!(result.unwrap(), "my-token");
}

#[test]
fn resolve_token_returns_error_for_empty_string() {
    let result = resolve_token(Some("".to_string()), None);
    assert!(result.is_err());
    assert!(matches!(result.unwrap_err(), FinageError::NoApiKey));
}

#[test]
fn resolve_token_returns_error_for_whitespace_only() {
    let result = resolve_token(Some("   ".to_string()), None);
    assert!(result.is_err());
    assert!(matches!(result.unwrap_err(), FinageError::NoApiKey));
}

#[test]
fn resolve_token_falls_back_to_env_var() {
    let result = resolve_token(None, Some("env-token".to_string()));
    assert_eq!(result.unwrap(), "env-token");
}

#[test]
fn resolve_token_returns_error_when_env_var_unset() {
    let result = resolve_token(None, None);
    assert!(result.is_err());
    assert!(matches!(result.unwrap_err(), FinageError::NoApiKey));
}

#[test]
fn resolve_token_flag_wins_over_env_var() {
    let result = resolve_token(Some(" flag ".to_string()), Some("env".to_string()));
    assert_eq!(result.unwrap(), "flag");
}

#[test]
fn resolve_token_trims_unicode_whitespace() {
    let result = resolve_token(Some("\u{3000}\ttok\u{a0}\n".to_string()), None);
    assert_eq!(result.unwrap(), "tok");
}

#[test]
fn test_format_timestamp_ms_valid() {
    // 2024-06-15T00:00:00 UTC = 1718409600000 ms
    let result = format_timestamp_ms(1718409600000);
    assert_eq!(result, "2024-06-15T00:00:00");
}

#[test]
fn test_format_timestamp_ms_invalid() {
    // An extremely large timestamp that can't be represented
    let result = format_timestamp_ms(i64::MAX);
    assert_eq!(result, "INVALID");
}

#[test]
fn test_format_timestamp_ms_zero() {
    let result = format_timestamp_ms(0);
    assert_eq!(result, "1970-01-01T00:00:00");
}

#[test]
fn format_timestamp_ms_negative_with_fraction_floors() {
    assert_eq!(format_timestamp_ms(-1), "1969-12-31T23:59:59");
    assert_eq!(format_timestamp_ms(-1500), "1969-12-31T23:59:58");
}

#[test]
fn format_timestamp_ms_negative_whole_second() {
    assert_eq!(format_timestamp_ms(-1000), "1969-12-31T23:59:59");
}

#[test]
fn test_print_search_results_empty() {
    assert_eq!(format_search_results(&[]), "No symbols matched the query.");
}

#[test]
fn test_print_search_results_nonempty() {
    let symbols = vec![
        SymbolEntry {
            symbol: "AAPL".to_string(),
            name: "Apple Inc".to_string(),
        },
        SymbolEntry {
            symbol: "AAPD".to_string(),
            name: "Direxion Daily AAPL Bear 1X Shares".to_string(),
        },
    ];
    let text = format_search_results(&symbols);
    let expected = format!(
        "{:<6}    {:<34}\n{:<6}    {:<34}\n{:<6}    {:<34}",
        "SYMBOL", "NAME", "AAPL", "Apple Inc", "AAPD", "Direxion Daily AAPL Bear 1X Shares"
    );
    assert_eq!(text, expected);
}

#[test]
fn search_table_width_counts_bytes_and_pads_chars() {
    // "ééé" is 6 bytes: the NAME column is 6 wide, and "ééé" (3 characters)
    // gets 3 spaces.
    let symbols = vec![SymbolEntry { symbol: "X".to_string(), name: "ééé".to_string() }];
    let text = format_search_results(&symbols);
    assert_eq!(text, "SYMBOL    NAME  \nX         ééé   ");
}

#[test]
fn check_status_maps_codes() {
    assert!(check_status(200, "").is_ok());
    assert!(check_status(204, "x").is_ok());
    assert!(matches!(check_status(401, "x"), Err(FinageError::Unauthorized)));
    assert!(matches!(check_status(429, "x"), Err(FinageError::RateLimited)));
    match check_status(500, "boom") {
        Err(FinageError::HttpError { status, message }) => {
            assert_eq!(status, 500);
            assert_eq!(message, "boom");
        }
        _ => panic!("expected HttpError"),
    }
}

#[test]
fn check_status_truncates_long_body() {
    let body = "a".repeat(2000);
    match check_status(502, &body) {
        Err(FinageError::HttpError { message, .. }) => assert_eq!(message.len(), 1024),
        _ => panic!("expected HttpError"),
    }
}

#[test]
fn check_status_cuts_long_body_on_a_char_boundary() {
    // Byte 1024 falls inside the two-byte 'é' that starts at byte 1023.
    let body = format!("{}é{}", "a".repeat(1023), "b".repeat(100));
    match check_status(500, &body) {
        Err(FinageError::HttpError { status, message }) => {
            assert_eq!(status, 500);
            assert_eq!(message, "a".repeat(1023));
        }
        _ => panic!("expected HttpError"),
    }
    let exact = format!("{}é{}", "a".repeat(1022), "b".repeat(100));
    match check_status(500, &exact) {
        Err(FinageError::HttpError { message, .. }) => assert_eq!(message, format!("{}é", "a".repeat(1022))),
        _ => panic!("expected HttpError"),
    }
}

#[test]
fn urls_are_built_from_their_parts() {
    assert_eq!(
        search_url(BASE_URL, "us-stock", "AAPL", "k"),
        "https://api.finage.co.uk/symbol-list/us-stock?search=AAPL&apikey=k"
    );
    assert_eq!(
        bars_url(BASE_URL, "AAPL", 5, "minute", "2024-01-01", "2024-01-02", "k", "asc", 100),
        "https://api.finage.co.uk/agg/stock/AAPL/5/minute/2024-01-01/2024-01-02?apikey=k&sort=asc&limit=100"
    );
    assert_eq!(stream_url("k"), "wss://stream.finage.co.uk?token=k");
}

#[test]
fn subscribe_symbols_joins_with_commas() {
    let symbols = vec!["AAPL".to_string(), "MSFT".to_string()];
    assert_eq!(subscribe_symbols(&symbols), "AAPL,MSFT");
    assert_eq!(subscribe_symbols(&[]), "");
}

#[test]
fn bars_args_are_checked_in_order() {
    assert!(matches!(
        validate_bars_args(0, "daily", "x", "y", "up", 0),
        Err(FinageError::InvalidTimespan(_))
    ));
    assert!(matches!(
        validate_bars_args(0, "day", "x", "y", "up", 0),
        Err(FinageError::InvalidSort(_))
    ));
    assert!(matches!(
        validate_bars_args(0, "day", "x", "y", "asc", 0),
        Err(FinageError::InvalidMultiplier(0))
    ));
    assert!(matches!(
        validate_bars_args(1, "day", "x", "y", "asc", 0),
        Err(FinageError::InvalidLimit(0))
    ));
    match validate_bars_args(1, "day", "x", "y", "asc", 10) {
        Err(FinageError::InvalidDate(d)) => assert_eq!(d, "x"),
        _ => panic!("expected InvalidDate"),
    }
    assert!(matches!(
        validate_bars_args(1, "day", "2024-01-02", "2024-01-01", "asc", 10),
        Err(FinageError::InvalidDateRange)
    ));
    assert!(matches!(
        validate_bars_args(1, "day", "2024-01-01", "2024-01-01", "asc", 10),
        Err(FinageError::InvalidDateRange)
    ));
    assert_eq!(
        validate_bars_args(1, "day", "2024-01-01", "2024-01-02", "asc", 10).unwrap(),
        (1704067200, 1704153600)
    );
}

#[test]
fn invalid_market_message() {
    match validate_market("bonds") {
        Err(FinageError::Other(m)) => {
            assert_eq!(m, "Invalid market 'bonds'. Valid values: us-stock, forex, crypto")
        }
        _ => panic!("expected Other"),
    }
}

#[test]
fn symbol_count_between_one_and_twenty() {
    assert!(validate_symbol_count(0).is_err());
    assert!(validate_symbol_count(1).is_ok());
    assert!(validate_symbol_count(20).is_ok());
    assert!(validate_symbol_count(21).is_err());
}

#[test]
fn parse_date_before_epoch_and_leap_day() {
    assert_eq!(parse_date_to_unix("1970-01-01").unwrap(), 0);
    assert_eq!(parse_date_to_unix("1969-12-31").unwrap(), -86400);
    assert_eq!(parse_date_to_unix("2024-02-29").unwrap(), 1709164800);
    assert_eq!(parse_date_to_unix("2000-03-01").unwrap(), 951868800);
    assert_eq!(parse_date_to_unix("1900-03-01").unwrap(), -2203891200);
    assert!(parse_date_to_unix("2023-02-29").is_err());
}

#[test]
fn format_timestamp_ms_is_invalid_exactly_outside_chronos_range() {
    let first_ms: i64 = -8_334_601_228_800 * 1000;
    let last_ms: i64 = 8_210_266_876_799 * 1000 + 999;
    assert_ne!(format_timestamp_ms(first_ms), "INVALID");
    assert_eq!(format_timestamp_ms(first_ms - 1), "INVALID");
    assert_eq!(format_timestamp_ms(last_ms), "+262142-12-31T23:59:59");
    assert_eq!(format_timestamp_ms(last_ms + 1), "INVALID");
}
