//! Finnhub: symbol search, stock candles and live trades aggregated per
//! minute. Verified here: resolution and date-range checks, token
//! resolution, status mapping, the search table, candle timestamps and the
//! live-minute label; the float-valued candle rows are printed by the
//! application.

use vstd::prelude::*;
use vstd::string::*;
use crate::text::{list_contains, pick_token, raw_token, str_eq, trimmed, trim_to_string};
use crate::table::{format_table, rendered_table, row_views, str_views};
use crate::time::{max_instant_secs, min_instant_secs, chrono_ymd, chrono_iso_text, epoch_day, iso_text, midnight_timestamp, parse_ymd, is_valid_date, millis_hour_minute, hour_minute_of_millis};

verus! {

broadcast use vstd::string::group_string_axioms;

/// Errors of the Finnhub client.
#[derive(Debug)]
pub enum FinnhubError {
    NoApiKey,
    Unauthorized,
    PremiumRequired,
    RateLimited,
    HttpError { status: u16, message: String },
    ParseError(String),
    WebSocketConnect(String),
    WebSocketDisconnect(String),
    InvalidResolution(String),
    InvalidDateRange,
    InvalidDate(String),
    Other(String),
}

pub struct SearchResponse {
    pub count: u32,
    pub result: Vec<SearchResult>,
}

pub struct SearchResult {
    pub description: String,
    pub display_symbol: String,
    pub symbol: String,
    pub security_type: String,
}

pub const VALID_RESOLUTIONS: [&'static str; 8] = ["1", "5", "15", "30", "60", "D", "W", "M"];

pub open spec fn valid_resolution(res: Seq<char>) -> bool {
    ||| res == "1"@
    ||| res == "5"@
    ||| res == "15"@
    ||| res == "30"@
    ||| res == "60"@
    ||| res == "D"@
    ||| res == "W"@
    ||| res == "M"@
}

pub fn validate_resolution(res: &str) -> (out: Result<(), FinnhubError>)
    ensures
        out is Ok <==> valid_resolution(res@),
        out matches Err(e) ==> e matches FinnhubError::InvalidResolution(m) && m@ == res@,
{
    if list_contains(&VALID_RESOLUTIONS, res) {
        Ok(())
    } else {
        Err(FinnhubError::InvalidResolution(res.to_string()))
    }
}

/// Turns the result of parsing `date_str` into the Unix timestamp of the
/// start of that day, or into `InvalidDate`.
pub fn unix_from_parsed_date(date_str: &str, parsed: Option<(i32, u32, u32)>) -> (res: Result<i64, FinnhubError>)
    requires
        parsed matches Some((y, m, d)) ==> is_valid_date(y as int, m as int, d as int),
    ensures
        match parsed {
            Some((y, m, d)) => (res matches Ok(ts) && ts == epoch_day(y as int, m as int, d as int) * 86400),
            None => (res matches Err(e) && e matches FinnhubError::InvalidDate(s) && s@ == date_str@),
        },
{
    match parsed {
        Some((y, m, d)) => Ok(midnight_timestamp(y, m, d)),
        None => Err(FinnhubError::InvalidDate(date_str.to_string())),
    }
}

/// Parse a "YYYY-MM-DD" date into the Unix timestamp of its start (UTC).
pub fn parse_date_to_unix(date_str: &str) -> (res: Result<i64, FinnhubError>)
    ensures
        match chrono_ymd(date_str@) {
            Some((y, m, d)) => (res matches Ok(ts) && ts == epoch_day(y as int, m as int, d as int) * 86400),
            None => (res matches Err(e) && e matches FinnhubError::InvalidDate(s) && s@ == date_str@),
        },
{
    let parsed = parse_ymd(date_str);
    unix_from_parsed_date(date_str, parsed)
}

/// Resolve the API token from the `--token` flag or, where it is absent,
/// from the value of `FINNHUB_API_KEY` (read by the caller). The token is
/// returned as given; one that is empty or white space only is refused.
pub fn resolve_token(flag: Option<String>, env_value: Option<String>) -> (res: Result<String, FinnhubError>)
    ensures
        res is Ok <==> trimmed(raw_token(flag, env_value)).len() > 0,
        res matches Ok(t) ==> t@ == raw_token(flag, env_value),
        res matches Err(e) ==> e is NoApiKey,
{
    let token = pick_token(flag, env_value);
    let t = trim_to_string(token.as_str());
    if t.as_str().is_empty() {
        return Err(FinnhubError::NoApiKey);
    }
    Ok(token)
}

/// Maps the status of an HTTP response, and its body, to a `FinnhubError`.
pub fn check_status(status: u16, body: &str) -> (res: Result<(), FinnhubError>)
    ensures
        res is Ok <==> 200 <= status <= 299,
        status == 401 ==> res == Err::<(), FinnhubError>(FinnhubError::Unauthorized),
        status == 403 ==> res == Err::<(), FinnhubError>(FinnhubError::PremiumRequired),
        status == 429 ==> res == Err::<(), FinnhubError>(FinnhubError::RateLimited),
        !(200 <= status <= 299) && status != 401 && status != 403 && status != 429 ==> (res matches Err(e)
            && e matches FinnhubError::HttpError { status: code, message } && code == status
            && message@ == body@),
{
    if 200 <= status && status <= 299 {
        Ok(())
    } else if status == 401 {
        Err(FinnhubError::Unauthorized)
    } else if status == 403 {
        Err(FinnhubError::PremiumRequired)
    } else if status == 429 {
        Err(FinnhubError::RateLimited)
    } else {
        Err(FinnhubError::HttpError { status, message: body.to_string() })
    }
}

/// The checks made before candles are requested: a known resolution and
/// a start before the end.
pub fn check_candle_params(resolution: &str, from: i64, to: i64) -> (res: Result<(), FinnhubError>)
    ensures
        !valid_resolution(resolution@) ==> (res matches Err(e) && e matches FinnhubError::InvalidResolution(m)
            && m@ == resolution@),
        valid_resolution(resolution@) && from >= to ==> res == Err::<(), FinnhubError>(FinnhubError::InvalidDateRange),
        valid_resolution(resolution@) && from < to ==> res is Ok,
{
    validate_resolution(resolution)?;
    if from >= to {
        return Err(FinnhubError::InvalidDateRange);
    }
    Ok(())
}

/// The TIMESTAMP cell of a candle (seconds since the epoch), or "INVALID".
pub fn format_candle_timestamp(timestamp: i64) -> (res: String)
    ensures
        res@ == match chrono_iso_text(timestamp, 0) {
            Some(t) => t,
            None => "INVALID"@,
        },
        !(min_instant_secs() <= timestamp <= max_instant_secs()) ==> res@ == "INVALID"@,
{
    match iso_text(timestamp, 0) {
        Some(t) => t,
        None => "INVALID".to_string(),
    }
}

/// The cells of the search table: symbol, display symbol, type, description.
pub open spec fn search_rows(results: Seq<SearchResult>) -> Seq<Seq<Seq<char>>> {
    results.map_values(|r: SearchResult| seq![r.symbol@, r.display_symbol@, r.security_type@, r.description@])
}

/// The search results as a table with columns SYMBOL, DISPLAY, TYPE and
/// DESCRIPTION (the last one not padded), or a message when there are none.
pub fn format_search_results(results: &[SearchResult]) -> (res: String)
    ensures
        results@.len() == 0 ==> res@ == "No symbols matched the query."@,
        results@.len() > 0 ==> res@ == rendered_table(
            seq!["SYMBOL"@, "DISPLAY"@, "TYPE"@, "DESCRIPTION"@],
            search_rows(results@),
            false,
        ),
{
    if results.len() == 0 {
        return "No symbols matched the query.".to_string();
    }
    let mut rows: Vec<Vec<&str>> = Vec::new();
    let mut i: usize = 0;
    while i < results.len()
        invariant
            i <= results@.len(),
            rows@.len() == i,
            forall|k: int| 0 <= k < i ==> #[trigger] rows@[k]@.len() == 4,
            row_views(rows@) =~= search_rows(results@).take(i as int),
        decreases results@.len() - i,
    {
        let r = &results[i];
        let row = vec![r.symbol.as_str(), r.display_symbol.as_str(), r.security_type.as_str(), r.description.as_str()];
        rows.push(row);
        proof {
            assert(str_views(row@) =~= search_rows(results@)[i as int]);
            assert(row_views(rows@) =~= search_rows(results@).take(i + 1));
        }
        i = i + 1;
    }
    let header = ["SYMBOL", "DISPLAY", "TYPE", "DESCRIPTION"];
    proof {
        assert(str_views(header@) =~= seq!["SYMBOL"@, "DISPLAY"@, "TYPE"@, "DESCRIPTION"@]);
        assert(search_rows(results@).take(results@.len() as int) =~= search_rows(results@));
    }
    format_table(&header, &rows, false)
}

/// The HH:MM label of a completed minute (`minute_key` minutes after the
/// epoch), as the live output shows it.
pub fn minute_label(minute_key: u64) -> (res: String)
    requires
        minute_key * 60_000 <= u64::MAX,
    ensures
        res@ == millis_hour_minute((minute_key * 60_000) as i64),
{
    let timestamp_ms = minute_key * 60_000;
    hour_minute_of_millis(timestamp_ms as i64)
}

pub const STREAM_URL: &'static str = "wss://ws.finnhub.io/";

/// URL of the live trade stream.
pub fn stream_url(token: &str) -> (res: String)
    ensures
        res@ == STREAM_URL@ + "?token="@ + token@,
{
    let mut url = STREAM_URL.to_string();
    url.append("?token=");
    url.append(token);
    url
}

pub const BASE_URL: &'static str = "https://finnhub.io/api/v1";

/// URL of the symbol search (the query goes in the query string).
pub fn search_url(base_url: &str) -> (res: String)
    ensures
        res@ == base_url@ + "/search"@,
{
    let mut url = base_url.to_string();
    url.append("/search");
    url
}

/// URL of the stock candles (symbol, resolution and range go in the query
/// string).
pub fn candles_url(base_url: &str) -> (res: String)
    ensures
        res@ == base_url@ + "/stock/candle"@,
{
    let mut url = base_url.to_string();
    url.append("/stock/candle");
    url
}

/// Whether a stream message of this `type` carries trades; every other
/// message (pings, subscription notices) is passed over.
pub fn is_trade_message(msg_type: &str) -> (res: bool)
    ensures
        res == (msg_type@ == "trade"@),
{
    str_eq(msg_type, "trade")
}

} // verus!
