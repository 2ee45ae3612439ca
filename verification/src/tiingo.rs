//! Tiingo: symbol search, daily and intraday prices and live crypto trades
//! aggregated per minute. Verified here: frequency and date checks, the
//! choice of endpoint, token resolution, status mapping and the search
//! table; price rows (floats) are printed by the application.

use vstd::prelude::*;
use vstd::string::*;
use crate::text::{list_contains, pick_token, raw_token, str_eq, trimmed, trim_to_string};
use crate::table::{format_table, rendered_table, row_views, str_views};
use crate::time::{chrono_ymd, parse_ymd, millis_hour_minute, hour_minute_of_millis};
use crate::time::{date_before, instant_millis, iso_instant, millis_of, parse_instant};

verus! {

broadcast use vstd::string::group_string_axioms;

/// Errors of the Tiingo client.
#[derive(Debug)]
pub enum TiingoError {
    NoApiKey,
    Unauthorized,
    RateLimited,
    HttpError { status: u16, message: String },
    ParseError(String),
    WebSocketConnect(String),
    WebSocketDisconnect(String),
    InvalidFrequency(String),
    InvalidDateRange,
    InvalidDate(String),
    Other(String),
}

/// Search result from the Tiingo search endpoint.
pub struct SearchResult {
    pub ticker: String,
    pub name: String,
    /// The exchange of the listing; empty where the service names none.
    pub exchange: String,
    pub asset_type: String,
}

/// Valid frequency values for the prices command.
pub const VALID_FREQUENCIES: [&'static str; 6] = ["1min", "5min", "15min", "30min", "1hour", "daily"];

pub open spec fn intraday_frequency(freq: Seq<char>) -> bool {
    ||| freq == "1min"@
    ||| freq == "5min"@
    ||| freq == "15min"@
    ||| freq == "30min"@
    ||| freq == "1hour"@
}

pub open spec fn valid_frequency(freq: Seq<char>) -> bool {
    intraday_frequency(freq) || freq == "daily"@
}

pub fn validate_frequency(freq: &str) -> (res: Result<(), TiingoError>)
    ensures
        res is Ok <==> valid_frequency(freq@),
        res matches Err(e) ==> e matches TiingoError::InvalidFrequency(m) && m@ == freq@,
{
    if list_contains(&VALID_FREQUENCIES, freq) {
        Ok(())
    } else {
        Err(TiingoError::InvalidFrequency(freq.to_string()))
    }
}

/// Accepts a date that chrono parses with `"%Y-%m-%d"`.
pub fn validate_date_format(date_str: &str) -> (res: Result<(), TiingoError>)
    ensures
        res is Ok <==> chrono_ymd(date_str@) is Some,
        res matches Err(e) ==> e matches TiingoError::InvalidDate(m) && m@ == date_str@,
{
    match parse_ymd(date_str) {
        Some(_) => Ok(()),
        None => Err(TiingoError::InvalidDate(date_str.to_string())),
    }
}

/// Whether prices at frequency `freq` come from the intraday endpoint.
pub fn is_intraday(freq: &str) -> (res: bool)
    ensures
        res == intraday_frequency(freq@),
{
    str_eq(freq, "1min") || str_eq(freq, "5min") || str_eq(freq, "15min") || str_eq(freq, "30min")
        || str_eq(freq, "1hour")
}

/// Validates the arguments of the `prices` command (frequency, from-date,
/// to-date, date order) and tells whether the intraday endpoint is the one
/// to call.
pub fn validate_prices_args(frequency: &str, from: &str, to: &str) -> (res: Result<bool, TiingoError>)
    ensures
        !valid_frequency(frequency@) ==> (res matches Err(e) && e matches TiingoError::InvalidFrequency(m)
            && m@ == frequency@),
        valid_frequency(frequency@) && chrono_ymd(from@) is None ==> (res matches Err(e)
            && e matches TiingoError::InvalidDate(m) && m@ == from@),
        valid_frequency(frequency@) && chrono_ymd(from@) is Some && chrono_ymd(to@) is None ==> (res matches Err(e)
            && e matches TiingoError::InvalidDate(m) && m@ == to@),
        valid_frequency(frequency@) && chrono_ymd(from@) is Some && chrono_ymd(to@) is Some ==> (if date_before(
            chrono_ymd(from@)->Some_0,
            chrono_ymd(to@)->Some_0,
        ) {
            res == Ok::<bool, TiingoError>(intraday_frequency(frequency@))
        } else {
            res == Err::<bool, TiingoError>(TiingoError::InvalidDateRange)
        }),
{
    validate_frequency(frequency)?;
    let from_date = match parse_ymd(from) {
        Some(d) => d,
        None => return Err(TiingoError::InvalidDate(from.to_string())),
    };
    let to_date = match parse_ymd(to) {
        Some(d) => d,
        None => return Err(TiingoError::InvalidDate(to.to_string())),
    };
    let ordered = from_date.0 < to_date.0 || (from_date.0 == to_date.0 && from_date.1 < to_date.1)
        || (from_date.0 == to_date.0 && from_date.1 == to_date.1 && from_date.2 < to_date.2);
    if !ordered {
        return Err(TiingoError::InvalidDateRange);
    }
    Ok(is_intraday(frequency))
}

/// Resolve the API token from the `--token` flag or, where it is absent,
/// from the value of `TIINGO_API_KEY` (read by the caller). The token is
/// returned as given; one that is empty or white space only is refused.
pub fn resolve_token(flag: Option<String>, env_value: Option<String>) -> (res: Result<String, TiingoError>)
    ensures
        res is Ok <==> trimmed(raw_token(flag, env_value)).len() > 0,
        res matches Ok(t) ==> t@ == raw_token(flag, env_value),
        res matches Err(e) ==> e is NoApiKey,
{
    let token = pick_token(flag, env_value);
    let t = trim_to_string(token.as_str());
    if t.as_str().is_empty() {
        return Err(TiingoError::NoApiKey);
    }
    Ok(token)
}

/// Maps the status of an HTTP response, and its body, to a `TiingoError`.
pub fn check_status(status: u16, body: &str) -> (res: Result<(), TiingoError>)
    ensures
        res is Ok <==> 200 <= status <= 299,
        status == 401 ==> res == Err::<(), TiingoError>(TiingoError::Unauthorized),
        status == 429 ==> res == Err::<(), TiingoError>(TiingoError::RateLimited),
        !(200 <= status <= 299) && status != 401 && status != 429 ==> (res matches Err(e)
            && e matches TiingoError::HttpError { status: code, message } && code == status
            && message@ == body@),
{
    if 200 <= status && status <= 299 {
        Ok(())
    } else if status == 401 {
        Err(TiingoError::Unauthorized)
    } else if status == 429 {
        Err(TiingoError::RateLimited)
    } else {
        Err(TiingoError::HttpError { status, message: body.to_string() })
    }
}

/// The cells of the search table: ticker, name, exchange and asset type.
pub open spec fn search_rows(results: Seq<SearchResult>) -> Seq<Seq<Seq<char>>> {
    results.map_values(|r: SearchResult| seq![r.ticker@, r.name@, r.exchange@, r.asset_type@])
}

/// The search results as a table with columns TICKER, NAME, EXCHANGE and
/// TYPE, or a message when there are none.
pub fn format_search_results(results: &[SearchResult]) -> (res: String)
    ensures
        results@.len() == 0 ==> res@ == "No symbols matched the query."@,
        results@.len() > 0 ==> res@ == rendered_table(
            seq!["TICKER"@, "NAME"@, "EXCHANGE"@, "TYPE"@],
            search_rows(results@),
            true,
        ),
{
    if results.len() == 0 {
        return "No symbols matched the query.".to_string();
    }
    let mut rows: Vec<Vec<&str>> = Vec::new();
    let mut i: usize = 0;
    while i < results.len()
        invariant
            i <= results@.len(),
            rows@.len() == i,
            forall|k: int| 0 <= k < i ==> #[trigger] rows@[k]@.len() == 4,
            row_views(rows@) =~= search_rows(results@).take(i as int),
        decreases results@.len() - i,
    {
        let r = &results[i];
        let row = vec![r.ticker.as_str(), r.name.as_str(), r.exchange.as_str(), r.asset_type.as_str()];
        rows.push(row);
        proof {
            assert(str_views(row@) =~= search_rows(results@)[i as int]);
            assert(row_views(rows@) =~= search_rows(results@).take(i + 1));
        }
        i = i + 1;
    }
    let header = ["TICKER", "NAME", "EXCHANGE", "TYPE"];
    proof {
        assert(str_views(header@) =~= seq!["TICKER"@, "NAME"@, "EXCHANGE"@, "TYPE"@]);
        assert(search_rows(results@).take(results@.len() as int) =~= search_rows(results@));
    }
    format_table(&header, &rows, true)
}

/// The HH:MM label of a completed minute (`minute_key` minutes after the
/// epoch), as the live output shows it.
pub fn minute_label(minute_key: u64) -> (res: String)
    requires
        minute_key * 60_000 <= u64::MAX,
    ensures
        res@ == millis_hour_minute((minute_key * 60_000) as i64),
{
    let timestamp_ms = minute_key * 60_000;
    hour_minute_of_millis(timestamp_ms as i64)
}

pub const STREAM_URL: &'static str = "wss://api.tiingo.com/crypto";

/// The millisecond timestamp under which a live trade is aggregated: its
/// ISO 8601 time read as `parse_instant` reads it, in Unix milliseconds
/// taken as an unsigned count (a time before 1970 wraps around, as a cast
/// of chrono's signed count does); `None` when the time cannot be read.
pub fn trade_timestamp_ms(datetime: &str) -> (res: Option<u64>)
    ensures
        res == match iso_instant(datetime@) {
            Some(t) => Some(instant_millis(t) as u64),
            None => None::<u64>,
        },
{
    match parse_instant(datetime) {
        Some(t) => {
            let ms = millis_of(t);
            Some(ms as u64)
        },
        None => None,
    }
}

/// URL of the symbol search.
pub const SEARCH_URL: &'static str = "https://api.tiingo.com/tiingo/utilities/search";

/// URL of the daily prices of a symbol.
pub fn daily_prices_url(symbol: &str) -> (res: String)
    ensures
        res@ == "https://api.tiingo.com/tiingo/daily/"@ + symbol@ + "/prices"@,
{
    let mut url = "https://api.tiingo.com/tiingo/daily/".to_string();
    url.append(symbol);
    url.append("/prices");
    url
}

/// URL of the intraday (IEX) prices of a symbol.
pub fn intraday_prices_url(symbol: &str) -> (res: String)
    ensures
        res@ == "https://api.tiingo.com/iex/"@ + symbol@ + "/prices"@,
{
    let mut url = "https://api.tiingo.com/iex/".to_string();
    url.append(symbol);
    url.append("/prices");
    url
}

/// Positions in the `data` array of a live crypto update: the ticker, the
/// ISO 8601 time, the size of the last trade and its price. Index 0 holds
/// the update type, 3 the exchange.
pub const DATA_TICKER: usize = 1;

pub const DATA_DATETIME: usize = 2;

pub const DATA_LAST_SIZE: usize = 4;

pub const DATA_LAST_PRICE: usize = 5;

} // verus!
