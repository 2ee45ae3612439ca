//! Finage: symbol search, aggregate bars and live trades.
//! Request validation, token resolution, status mapping, request URLs and
//! the search table are verified here; the network and the float-valued
//! bar and trade rows are handled by the application.

use vstd::prelude::*;
use vstd::string::*;
use crate::text::{pick_token, list_contains, raw_token, joined, push_decimal, decimal, str_eq, trim_to_string, trimmed, views, join_strings};
use crate::table::{format_table, rendered_table, row_views, str_views};
use crate::time::{
    chrono_ymd, epoch_day, is_valid_date, iso_text_of_millis_or_invalid, midnight_timestamp, millis_in_range, millis_iso_text, parse_ymd,
};

verus! {

broadcast use vstd::string::group_string_axioms;

/// Errors of the Finage client.
#[derive(Debug)]
pub enum FinageError {
    NoApiKey,
    Unauthorized,
    RateLimited,
    HttpError { status: u16, message: String },
    ParseError(String),
    WebSocketConnect(String),
    WebSocketDisconnect(String),
    InvalidTimespan(String),
    InvalidSort(String),
    InvalidDate(String),
    InvalidDateRange,
    InvalidLimit(u32),
    InvalidMultiplier(u32),
    Other(String),
}

pub const VALID_TIMESPANS: [&'static str; 7] = ["minute", "hour", "day", "week", "month", "quarter", "year"];

pub const VALID_SORTS: [&'static str; 2] = ["asc", "desc"];

pub const VALID_MARKETS: [&'static str; 3] = ["us-stock", "forex", "crypto"];

pub open spec fn valid_timespan(ts: Seq<char>) -> bool {
    ||| ts == "minute"@
    ||| ts == "hour"@
    ||| ts == "day"@
    ||| ts == "week"@
    ||| ts == "month"@
    ||| ts == "quarter"@
    ||| ts == "year"@
}

pub fn validate_timespan(ts: &str) -> (res: Result<(), FinageError>)
    ensures
        res is Ok <==> valid_timespan(ts@),
        res matches Err(e) ==> e matches FinageError::InvalidTimespan(m) && m@ == ts@,
{
    proof {
        assert(VALID_TIMESPANS@.len() == 7);
    }
    if list_contains(&VALID_TIMESPANS, ts) {
        Ok(())
    } else {
        Err(FinageError::InvalidTimespan(ts.to_string()))
    }
}

pub open spec fn valid_sort(sort: Seq<char>) -> bool {
    sort == "asc"@ || sort == "desc"@
}

pub fn validate_sort(sort: &str) -> (res: Result<(), FinageError>)
    ensures
        res is Ok <==> valid_sort(sort@),
        res matches Err(e) ==> e matches FinageError::InvalidSort(m) && m@ == sort@,
{
    if list_contains(&VALID_SORTS, sort) {
        Ok(())
    } else {
        Err(FinageError::InvalidSort(sort.to_string()))
    }
}

pub fn validate_multiplier(m: u32) -> (res: Result<(), FinageError>)
    ensures
        res is Ok <==> 1 <= m <= 1440,
        res matches Err(e) ==> e == FinageError::InvalidMultiplier(m),
{
    if 1 <= m && m <= 1440 {
        Ok(())
    } else {
        Err(FinageError::InvalidMultiplier(m))
    }
}

pub fn validate_limit(limit: u32) -> (res: Result<(), FinageError>)
    ensures
        res is Ok <==> 1 <= limit <= 50000,
        res matches Err(e) ==> e == FinageError::InvalidLimit(limit),
{
    if 1 <= limit && limit <= 50000 {
        Ok(())
    } else {
        Err(FinageError::InvalidLimit(limit))
    }
}

pub open spec fn valid_market(market: Seq<char>) -> bool {
    market == "us-stock"@ || market == "forex"@ || market == "crypto"@
}

/// Message of the error for an unknown market.
pub open spec fn invalid_market_message(market: Seq<char>) -> Seq<char> {
    "Invalid market '"@ + market + "'. Valid values: us-stock, forex, crypto"@
}

pub fn validate_market(market: &str) -> (res: Result<(), FinageError>)
    ensures
        res is Ok <==> valid_market(market@),
        res matches Err(e) ==> e matches FinageError::Other(m) && m@ == invalid_market_message(market@),
{
    if list_contains(&VALID_MARKETS, market) {
        Ok(())
    } else {
        let mut message = "Invalid market '".to_string();
        message.append(market);
        message.append("'. Valid values: us-stock, forex, crypto");
        Err(FinageError::Other(message))
    }
}

/// Turns the result of parsing `date_str` as a date into the Unix timestamp
/// of its start (midnight UTC), or into `InvalidDate` where there was none.
pub fn unix_from_parsed_date(date_str: &str, parsed: Option<(i32, u32, u32)>) -> (res: Result<i64, FinageError>)
    requires
        parsed matches Some((y, m, d)) ==> is_valid_date(y as int, m as int, d as int),
    ensures
        match parsed {
            Some((y, m, d)) => (res matches Ok(ts) && ts == epoch_day(y as int, m as int, d as int) * 86400),
            None => res matches Err(e) && e matches FinageError::InvalidDate(s) && s@ == date_str@,
        },
{
    match parsed {
        Some((y, m, d)) => Ok(midnight_timestamp(y, m, d)),
        None => Err(FinageError::InvalidDate(date_str.to_string())),
    }
}

/// Parse a "YYYY-MM-DD" date string into a Unix timestamp (seconds since
/// the epoch, start of day UTC); `InvalidDate` where chrono rejects it.
pub fn parse_date_to_unix(date_str: &str) -> (res: Result<i64, FinageError>)
    ensures
        match chrono_ymd(date_str@) {
            Some((y, m, d)) => (res matches Ok(ts) && ts == epoch_day(y as int, m as int, d as int) * 86400),
            None => res matches Err(e) && e matches FinageError::InvalidDate(s) && s@ == date_str@,
        },
{
    let parsed = parse_ymd(date_str);
    unix_from_parsed_date(date_str, parsed)
}

/// Resolve the API token from the `--token` flag or, where it is absent,
/// from the value of `FINAGE_API_KEY` (read by the caller). Trims white
/// space and returns `NoApiKey` if the result is empty.
pub fn resolve_token(flag: Option<String>, env_value: Option<String>) -> (res: Result<String, FinageError>)
    ensures
        res is Ok <==> trimmed(raw_token(flag, env_value)).len() > 0,
        res matches Ok(t) ==> t@ == trimmed(raw_token(flag, env_value)),
        res matches Err(e) ==> e is NoApiKey,
{
    let raw = pick_token(flag, env_value);
    let trimmed = trim_to_string(raw.as_str());
    if trimmed.as_str().is_empty() {
        Err(FinageError::NoApiKey)
    } else {
        Ok(trimmed)
    }
}

/// Whether `status` is a success status (2xx).
pub open spec fn is_success(status: u16) -> bool {
    200 <= status <= 299
}

/// The largest character boundary of `bytes` at or below `n` (0 at worst).
pub open spec fn boundary_at_or_below(bytes: Seq<u8>, n: int) -> int
    decreases n,
{
    if n <= 0 {
        0
    } else if vstd::utf8::is_char_boundary(bytes, n) {
        n
    } else {
        boundary_at_or_below(bytes, n - 1)
    }
}

/// The error message kept of a response body: the whole body when it has
/// at most 1024 bytes, else its longest prefix of at most 1024 bytes that
/// ends on a character boundary.
pub open spec fn kept_body_bytes(body: Seq<char>) -> Seq<u8> {
    let bytes = vstd::utf8::encode_utf8(body);
    if bytes.len() > 1024 { bytes.subrange(0, boundary_at_or_below(bytes, 1024)) } else { bytes }
}

/// Maps the status of an HTTP response, and its body, to a `FinageError`.
/// A body longer than 1024 bytes is cut to at most its first 1024 bytes,
/// ending on a character boundary.
pub fn check_status(status: u16, body: &str) -> (res: Result<(), FinageError>)
    requires
        body.spec_bytes().len() <= usize::MAX,
    ensures
        res is Ok <==> is_success(status),
        status == 401 ==> res == Err::<(), FinageError>(FinageError::Unauthorized),
        status == 429 ==> res == Err::<(), FinageError>(FinageError::RateLimited),
        !is_success(status) && status != 401 && status != 429 ==> (res matches Err(e)
            && e matches FinageError::HttpError { status: code, message }
            && code == status && vstd::utf8::encode_utf8(message@) == kept_body_bytes(body@)),
{
    broadcast use vstd::utf8::encode_utf8_valid_utf8;

    if 200 <= status && status <= 299 {
        return Ok(());
    }
    if status == 401 {
        Err(FinageError::Unauthorized)
    } else if status == 429 {
        Err(FinageError::RateLimited)
    } else {
        let message = if body.len() > 1024 {
            let ghost bytes = body.spec_bytes();
            let mut k: usize = 1024;
            while !body.is_char_boundary(k)
                invariant
                    k <= 1024,
                    bytes == body.spec_bytes(),
                    bytes.len() > 1024,
                    vstd::utf8::valid_utf8(bytes),
                    boundary_at_or_below(bytes, 1024) == boundary_at_or_below(bytes, k as int),
                decreases k,
            {
                proof {
                    if k == 0 {
                        assert(vstd::utf8::is_char_boundary(bytes, 0));
                    }
                }
                k = k - 1;
            }
            let (head, _rest) = body.split_at(k);
            proof {
                assert(boundary_at_or_below(bytes, k as int) == k);
            }
            head.to_string()
        } else {
            body.to_string()
        };
        Err(FinageError::HttpError { status, message })
    }
}

/// Convert a millisecond epoch timestamp to an ISO 8601 UTC string
/// (YYYY-MM-DDTHH:MM:SS), flooring to the second; "INVALID" if the
/// timestamp is out of the range chrono can represent.
pub fn format_timestamp_ms(timestamp_ms: i64) -> (res: String)
    ensures
        res@ == match millis_iso_text(timestamp_ms) {
            Some(t) => t,
            None => "INVALID"@,
        },
        millis_iso_text(timestamp_ms) is Some <==> millis_in_range(timestamp_ms),
        !millis_in_range(timestamp_ms) ==> res@ == "INVALID"@,
{
    iso_text_of_millis_or_invalid(timestamp_ms)
}

pub struct SymbolListResponse {
    pub page: Option<u32>,
    pub symbols: Vec<SymbolEntry>,
}

pub struct SymbolEntry {
    pub symbol: String,
    pub name: String,
}

/// The cells of the search table: symbol and name of each entry.
pub open spec fn symbol_rows(entries: Seq<SymbolEntry>) -> Seq<Seq<Seq<char>>> {
    entries.map_values(|e: SymbolEntry| seq![e.symbol@, e.name@])
}

/// The search results as a table with columns SYMBOL and NAME, or a
/// message when there are none.
pub fn format_search_results(symbols: &[SymbolEntry]) -> (res: String)
    ensures
        symbols@.len() == 0 ==> res@ == "No symbols matched the query."@,
        symbols@.len() > 0 ==> res@ == rendered_table(seq!["SYMBOL"@, "NAME"@], symbol_rows(symbols@), true),
{
    if symbols.len() == 0 {
        return "No symbols matched the query.".to_string();
    }
    let mut rows: Vec<Vec<&str>> = Vec::new();
    let mut i: usize = 0;
    while i < symbols.len()
        invariant
            i <= symbols@.len(),
            rows@.len() == i,
            forall|k: int| 0 <= k < i ==> #[trigger] rows@[k]@.len() == 2,
            row_views(rows@) =~= symbol_rows(symbols@).take(i as int),
        decreases symbols@.len() - i,
    {
        let row = vec![symbols[i].symbol.as_str(), symbols[i].name.as_str()];
        rows.push(row);
        proof {
            assert(str_views(row@) =~= seq![symbols@[i as int].symbol@, symbols@[i as int].name@]);
            assert(row_views(rows@) =~= symbol_rows(symbols@).take(i + 1));
        }
        i = i + 1;
    }
    let header = ["SYMBOL", "NAME"];
    proof {
        assert(str_views(header@) =~= seq!["SYMBOL"@, "NAME"@]);
        assert(symbol_rows(symbols@).take(symbols@.len() as int) =~= symbol_rows(symbols@));
    }
    format_table(&header, &rows, true)
}

pub const BASE_URL: &'static str = "https://api.finage.co.uk";

pub const STREAM_URL: &'static str = "wss://stream.finage.co.uk";

/// URL of the symbol search request.
pub open spec fn search_url_text(base: Seq<char>, market: Seq<char>, query: Seq<char>, token: Seq<char>) -> Seq<char> {
    base + "/symbol-list/"@ + market + "?search="@ + query + "&apikey="@ + token
}

pub fn search_url(base_url: &str, market: &str, query: &str, token: &str) -> (res: String)
    ensures
        res@ == search_url_text(base_url@, market@, query@, token@),
{
    let mut url = base_url.to_string();
    url.append("/symbol-list/");
    url.append(market);
    url.append("?search=");
    url.append(query);
    url.append("&apikey=");
    url.append(token);
    url
}

/// URL of the aggregate bars request.
pub open spec fn bars_url_text(
    base: Seq<char>,
    symbol: Seq<char>,
    multiplier: u32,
    timespan: Seq<char>,
    from: Seq<char>,
    to: Seq<char>,
    token: Seq<char>,
    sort: Seq<char>,
    limit: u32,
) -> Seq<char> {
    base + "/agg/stock/"@ + symbol + "/"@ + decimal(multiplier as nat) + "/"@ + timespan + "/"@ + from
        + "/"@ + to + "?apikey="@ + token + "&sort="@ + sort + "&limit="@ + decimal(limit as nat)
}

pub fn bars_url(
    base_url: &str,
    symbol: &str,
    multiplier: u32,
    timespan: &str,
    from: &str,
    to: &str,
    token: &str,
    sort: &str,
    limit: u32,
) -> (res: String)
    ensures
        res@ == bars_url_text(base_url@, symbol@, multiplier, timespan@, from@, to@, token@, sort@, limit),
{
    let mut url = base_url.to_string();
    url.append("/agg/stock/");
    url.append(symbol);
    url.append("/");
    push_decimal(&mut url, multiplier as u64);
    url.append("/");
    url.append(timespan);
    url.append("/");
    url.append(from);
    url.append("/");
    url.append(to);
    url.append("?apikey=");
    url.append(token);
    url.append("&sort=");
    url.append(sort);
    url.append("&limit=");
    push_decimal(&mut url, limit as u64);
    url
}

/// URL of the live trade stream.
pub fn stream_url(token: &str) -> (res: String)
    ensures
        res@ == STREAM_URL@ + "?token="@ + token@,
{
    let mut url = STREAM_URL.to_string();
    url.append("?token=");
    url.append(token);
    url
}

/// The `symbols` field of the subscribe message: the symbols joined by commas.
pub fn subscribe_symbols(symbols: &[String]) -> (res: String)
    ensures
        res@ == joined(views(symbols@), ","@),
{
    join_strings(symbols, ",")
}

/// Timestamp of the start of the date that chrono parses from `s`.
pub open spec fn date_timestamp(s: Seq<char>) -> Option<int> {
    match chrono_ymd(s) {
        Some((y, m, d)) => Some(epoch_day(y as int, m as int, d as int) * 86400),
        None => None,
    }
}

/// Validates the arguments of the `bars` command in the order timespan,
/// sort, multiplier, limit, from-date, to-date, date range, and returns the
/// timestamps of the two dates.
pub fn validate_bars_args(
    multiplier: u32,
    timespan: &str,
    from: &str,
    to: &str,
    sort: &str,
    limit: u32,
) -> (res: Result<(i64, i64), FinageError>)
    ensures
        !valid_timespan(timespan@) ==> (res matches Err(e) && e matches FinageError::InvalidTimespan(m) && m@ == timespan@),
        valid_timespan(timespan@) && !valid_sort(sort@) ==> (res matches Err(e) && e matches FinageError::InvalidSort(m) && m@ == sort@),
        valid_timespan(timespan@) && valid_sort(sort@) && !(1 <= multiplier <= 1440)
            ==> res == Err::<(i64, i64), FinageError>(FinageError::InvalidMultiplier(multiplier)),
        valid_timespan(timespan@) && valid_sort(sort@) && 1 <= multiplier <= 1440 && !(1 <= limit <= 50000)
            ==> res == Err::<(i64, i64), FinageError>(FinageError::InvalidLimit(limit)),
        valid_timespan(timespan@) && valid_sort(sort@) && 1 <= multiplier <= 1440 && 1 <= limit <= 50000
            ==> match (date_timestamp(from@), date_timestamp(to@)) {
            (None, _) => (res matches Err(e) && e matches FinageError::InvalidDate(s) && s@ == from@),
            (Some(_), None) => (res matches Err(e) && e matches FinageError::InvalidDate(s) && s@ == to@),
            (Some(f), Some(t)) => if f >= t {
                res == Err::<(i64, i64), FinageError>(FinageError::InvalidDateRange)
            } else {
                (res matches Ok((a, b)) && a == f && b == t)
            },
        },
{
    validate_timespan(timespan)?;
    validate_sort(sort)?;
    validate_multiplier(multiplier)?;
    validate_limit(limit)?;
    let from_ts = parse_date_to_unix(from)?;
    let to_ts = parse_date_to_unix(to)?;
    if from_ts >= to_ts {
        return Err(FinageError::InvalidDateRange);
    }
    Ok((from_ts, to_ts))
}

/// The `live` command takes between 1 and 20 symbols.
pub fn validate_symbol_count(count: usize) -> (res: Result<(), FinageError>)
    ensures
        res is Ok <==> 1 <= count <= 20,
        res matches Err(e) ==> e matches FinageError::Other(m) && m@ == "Must provide between 1 and 20 symbols."@,
{
    if count == 0 || count > 20 {
        Err(FinageError::Other("Must provide between 1 and 20 symbols.".to_string()))
    } else {
        Ok(())
    }
}

} // verus!
