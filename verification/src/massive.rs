//! Massive (forex): ticker search, aggregate bars, quotes, conversions,
//! snapshots and live minute aggregates. Verified here: argument
//! validation, token resolution, status mapping, the search table, the
//! timestamp and time-of-day texts and the stream subscription; rows with
//! float prices are formatted by the application.

use vstd::prelude::*;
use vstd::string::*;
use crate::text::{
    contains_text, count_char, joined, lemma_count_char_concat, lemma_joined_contains, lemma_joined_separator_count,
    decimal, list_contains, pick_token, push_decimal, raw_token, trimmed, trim_to_string, views,
};
use crate::table::{format_table, law_table_shows_every_cell, rendered_table, row_views, str_views};
use crate::time::{date_before, chrono_ymd, is_valid_date, parse_ymd, millis_iso_text, millis_in_range, iso_text_of_millis_or_invalid, millis_hour_minute, hour_minute_of_millis};

verus! {

broadcast use vstd::string::group_string_axioms;

/// Errors of the Massive client.
#[derive(Debug)]
pub enum MassiveError {
    NoApiKey,
    Unauthorized,
    PremiumRequired,
    RateLimited,
    HttpError { status: u16, message: String },
    ParseError(String),
    WebSocketConnect(String),
    WebSocketDisconnect(String),
    InvalidTimespan(String),
    InvalidSort(String),
    InvalidDate(String),
    InvalidDateRange,
    InvalidLimit { value: u32, max: u32 },
    Other(String),
}

pub struct SearchResponse {
    pub status: String,
    pub count: u32,
    pub results: Vec<ForexTicker>,
}

pub struct ForexTicker {
    pub ticker: String,
    pub name: String,
    pub market: String,
    pub active: bool,
}

pub const VALID_TIMESPANS: [&'static str; 7] = ["minute", "hour", "day", "week", "month", "quarter", "year"];

pub const VALID_SORT_ORDERS: [&'static str; 2] = ["asc", "desc"];

pub open spec fn valid_timespan(ts: Seq<char>) -> bool {
    ||| ts == "minute"@
    ||| ts == "hour"@
    ||| ts == "day"@
    ||| ts == "week"@
    ||| ts == "month"@
    ||| ts == "quarter"@
    ||| ts == "year"@
}

pub open spec fn valid_sort(sort: Seq<char>) -> bool {
    sort == "asc"@ || sort == "desc"@
}

pub fn validate_timespan(ts: &str) -> (res: Result<(), MassiveError>)
    ensures
        res is Ok <==> valid_timespan(ts@),
        res matches Err(e) ==> e matches MassiveError::InvalidTimespan(m) && m@ == ts@,
{
    if list_contains(&VALID_TIMESPANS, ts) {
        Ok(())
    } else {
        Err(MassiveError::InvalidTimespan(ts.to_string()))
    }
}

pub fn validate_sort(sort: &str) -> (res: Result<(), MassiveError>)
    ensures
        res is Ok <==> valid_sort(sort@),
        res matches Err(e) ==> e matches MassiveError::InvalidSort(m) && m@ == sort@,
{
    if list_contains(&VALID_SORT_ORDERS, sort) {
        Ok(())
    } else {
        Err(MassiveError::InvalidSort(sort.to_string()))
    }
}

/// Accepts a date that chrono parses with `"%Y-%m-%d"`.
pub fn validate_date_format(date_str: &str) -> (res: Result<(), MassiveError>)
    ensures
        res is Ok <==> chrono_ymd(date_str@) is Some,
        res matches Err(e) ==> e matches MassiveError::InvalidDate(m) && m@ == date_str@,
{
    match parse_ymd(date_str) {
        Some(_) => Ok(()),
        None => Err(MassiveError::InvalidDate(date_str.to_string())),
    }
}

fn before_exec(a: (i32, u32, u32), b: (i32, u32, u32)) -> (res: bool)
    ensures
        res == date_before(a, b),
{
    a.0 < b.0 || (a.0 == b.0 && a.1 < b.1) || (a.0 == b.0 && a.1 == b.1 && a.2 < b.2)
}

/// Accepts two parsable dates of which the first comes strictly first.
pub fn validate_date_range(from: &str, to: &str) -> (res: Result<(), MassiveError>)
    ensures
        chrono_ymd(from@) is None ==> (res matches Err(e) && e matches MassiveError::InvalidDate(m) && m@ == from@),
        chrono_ymd(from@) is Some && chrono_ymd(to@) is None ==> (res matches Err(e)
            && e matches MassiveError::InvalidDate(m) && m@ == to@),
        chrono_ymd(from@) is Some && chrono_ymd(to@) is Some ==> (if date_before(
            chrono_ymd(from@)->Some_0,
            chrono_ymd(to@)->Some_0,
        ) {
            res is Ok
        } else {
            res == Err::<(), MassiveError>(MassiveError::InvalidDateRange)
        }),
{
    let from_date = match parse_ymd(from) {
        Some(d) => d,
        None => return Err(MassiveError::InvalidDate(from.to_string())),
    };
    let to_date = match parse_ymd(to) {
        Some(d) => d,
        None => return Err(MassiveError::InvalidDate(to.to_string())),
    };
    if before_exec(from_date, to_date) {
        Ok(())
    } else {
        Err(MassiveError::InvalidDateRange)
    }
}

pub fn validate_limit(limit: u32, max: u32) -> (res: Result<(), MassiveError>)
    ensures
        res is Ok <==> 1 <= limit <= max,
        res matches Err(e) ==> e == (MassiveError::InvalidLimit { value: limit, max }),
{
    if limit == 0 || limit > max {
        Err(MassiveError::InvalidLimit { value: limit, max })
    } else {
        Ok(())
    }
}

/// Resolve the API key from the `--token` flag or, where it is absent, from
/// the value of `MASSIVE_API_KEY` (read by the caller); trims white space
/// and refuses an empty result.
pub fn resolve_token(flag: Option<String>, env_value: Option<String>) -> (res: Result<String, MassiveError>)
    ensures
        res is Ok <==> trimmed(raw_token(flag, env_value)).len() > 0,
        res matches Ok(t) ==> t@ == trimmed(raw_token(flag, env_value)),
        res matches Err(e) ==> e is NoApiKey,
{
    let token = pick_token(flag, env_value);
    let t = trim_to_string(token.as_str());
    if t.as_str().is_empty() {
        return Err(MassiveError::NoApiKey);
    }
    Ok(t)
}

/// Maps the status of an HTTP response, and its body, to a `MassiveError`.
pub fn check_status(status: u16, body: &str) -> (res: Result<(), MassiveError>)
    ensures
        res is Ok <==> 200 <= status <= 299,
        status == 401 ==> res == Err::<(), MassiveError>(MassiveError::Unauthorized),
        status == 403 ==> res == Err::<(), MassiveError>(MassiveError::PremiumRequired),
        status == 429 ==> res == Err::<(), MassiveError>(MassiveError::RateLimited),
        !(200 <= status <= 299) && status != 401 && status != 403 && status != 429 ==> (res matches Err(e)
            && e matches MassiveError::HttpError { status: code, message } && code == status
            && message@ == body@),
{
    if 200 <= status && status <= 299 {
        Ok(())
    } else if status == 401 {
        Err(MassiveError::Unauthorized)
    } else if status == 403 {
        Err(MassiveError::PremiumRequired)
    } else if status == 429 {
        Err(MassiveError::RateLimited)
    } else {
        Err(MassiveError::HttpError { status, message: body.to_string() })
    }
}

/// ISO 8601 text (YYYY-MM-DDTHH:MM:SS) of a millisecond timestamp, or
/// "INVALID" where chrono cannot represent it.
pub fn format_timestamp_ms(ms: u64) -> (res: String)
    ensures
        res@ == match millis_iso_text(ms as i64) {
            Some(t) => t,
            None => "INVALID"@,
        },
        !millis_in_range(ms as i64) ==> res@ == "INVALID"@,
{
    iso_text_of_millis_or_invalid(ms as i64)
}

/// The HH:MM text of a minute aggregate's start time (milliseconds).
pub fn ws_minute_time(start_ms: u64) -> (res: String)
    ensures
        res@ == millis_hour_minute(start_ms as i64),
{
    hour_minute_of_millis(start_ms as i64)
}

pub open spec fn bool_text(b: bool) -> Seq<char> {
    if b { "true"@ } else { "false"@ }
}

/// The cells of the search table: ticker, name and whether it is active.
pub open spec fn ticker_rows(results: Seq<ForexTicker>) -> Seq<Seq<Seq<char>>> {
    results.map_values(|r: ForexTicker| seq![r.ticker@, r.name@, bool_text(r.active)])
}

/// Format search results as an aligned table with columns TICKER, NAME and
/// ACTIVE, or a message when there are none.
pub fn format_search_results(results: &[ForexTicker]) -> (res: String)
    ensures
        results@.len() == 0 ==> res@ == "No symbols matched the query."@,
        results@.len() > 0 ==> res@ == rendered_table(
            seq!["TICKER"@, "NAME"@, "ACTIVE"@],
            ticker_rows(results@),
            true,
        ),
{
    if results.len() == 0 {
        return "No symbols matched the query.".to_string();
    }
    let mut rows: Vec<Vec<&str>> = Vec::new();
    let mut i: usize = 0;
    while i < results.len()
        invariant
            i <= results@.len(),
            rows@.len() == i,
            forall|k: int| 0 <= k < i ==> #[trigger] rows@[k]@.len() == 3,
            row_views(rows@) =~= ticker_rows(results@).take(i as int),
        decreases results@.len() - i,
    {
        let r = &results[i];
        let active: &str = if r.active { "true" } else { "false" };
        let row = vec![r.ticker.as_str(), r.name.as_str(), active];
        rows.push(row);
        proof {
            assert(str_views(row@) =~= ticker_rows(results@)[i as int]);
            assert(row_views(rows@) =~= ticker_rows(results@).take(i + 1));
        }
        i = i + 1;
    }
    let header = ["TICKER", "NAME", "ACTIVE"];
    proof {
        assert(str_views(header@) =~= seq!["TICKER"@, "NAME"@, "ACTIVE"@]);
        assert(ticker_rows(results@).take(results@.len() as int) =~= ticker_rows(results@));
    }
    format_table(&header, &rows, true)
}

/// The search table leaves nothing out: for every ticker found it shows
/// the ticker, its name and whether it is active.
pub proof fn law_search_output_complete(results: Seq<ForexTicker>, k: int)
    requires
        0 <= k < results.len(),
    ensures
        ({
            let out = rendered_table(seq!["TICKER"@, "NAME"@, "ACTIVE"@], ticker_rows(results), true);
            &&& contains_text(out, results[k].ticker@)
            &&& contains_text(out, results[k].name@)
            &&& contains_text(out, bool_text(results[k].active))
        }),
{
    let header = seq!["TICKER"@, "NAME"@, "ACTIVE"@];
    let rows = ticker_rows(results);
    assert(rows[k] == seq![results[k].ticker@, results[k].name@, bool_text(results[k].active)]);
    law_table_shows_every_cell(header, rows, true, k, 0);
    law_table_shows_every_cell(header, rows, true, k, 1);
    law_table_shows_every_cell(header, rows, true, k, 2);
}

/// The subscription parameter for minute aggregates: every pair prefixed
/// with "CA.", joined by commas.
pub open spec fn subscribe_params_text(pairs: Seq<Seq<char>>) -> Seq<char> {
    joined(pairs.map_values(|p: Seq<char>| "CA."@ + p), ","@)
}

/// Format subscribe params: prefix each pair with "CA." and join with
/// commas, e.g. ["C:EUR-USD", "C:GBP-USD"] gives "CA.C:EUR-USD,CA.C:GBP-USD".
pub fn format_subscribe_params(pairs: &[String]) -> (res: String)
    ensures
        res@ == subscribe_params_text(views(pairs@)),
{
    let ghost parts = views(pairs@).map_values(|p: Seq<char>| "CA."@ + p);
    let mut res = String::new();
    let mut i: usize = 0;
    while i < pairs.len()
        invariant
            i <= pairs@.len(),
            parts == views(pairs@).map_values(|p: Seq<char>| "CA."@ + p),
            res@ == joined(parts.take(i as int), ","@),
        decreases pairs@.len() - i,
    {
        proof {
            assert(parts.take(i + 1).drop_last() =~= parts.take(i as int));
        }
        if i > 0 {
            res.append(",");
        }
        res.append("CA.");
        res.append(pairs[i].as_str());
        proof {
            assert(parts[i as int] == "CA."@ + pairs@[i as int]@);
            if i == 0 {
                assert(parts.take(1) =~= seq![parts[0]]);
                assert(res@ =~= parts[0]);
            } else {
                assert(res@ =~= joined(parts.take(i as int), ","@) + ","@ + parts[i as int]);
            }
        }
        i = i + 1;
    }
    proof {
        assert(parts.take(pairs@.len() as int) =~= parts);
    }
    res
}

/// Every pair is subscribed to under its "CA." channel, and where no pair
/// holds a comma the parameter holds exactly one comma fewer than there
/// are pairs, so the server reads back as many channels as were asked for.
pub proof fn law_subscribe_params_name_every_pair(pairs: Seq<Seq<char>>, k: int)
    requires
        0 <= k < pairs.len(),
    ensures
        contains_text(subscribe_params_text(pairs), "CA."@ + pairs[k]),
        (forall|i: int| 0 <= i < pairs.len() ==> count_char(#[trigger] pairs[i], ',') == 0)
            ==> count_char(subscribe_params_text(pairs), ',') == pairs.len() - 1,
{
    let parts = pairs.map_values(|p: Seq<char>| "CA."@ + p);
    lemma_joined_contains(parts, ","@, k);
    if forall|i: int| 0 <= i < pairs.len() ==> count_char(#[trigger] pairs[i], ',') == 0 {
        let prefix = "CA."@;
        assert(count_char(prefix, ',') == 0) by {
            reveal_strlit("CA.");
            let c1 = seq!['C'];
            let c2 = seq!['C', 'A'];
            assert(prefix =~= seq!['C', 'A', '.']);
            assert(c1.drop_last() =~= Seq::<char>::empty());
            assert(count_char(Seq::<char>::empty(), ',') == 0);
            assert(count_char(c1, ',') == 0);
            assert(c2.drop_last() =~= c1);
            assert(count_char(c2, ',') == 0);
            assert(prefix.drop_last() =~= c2);
        }
        assert forall|i: int| 0 <= i < parts.len() implies count_char(#[trigger] parts[i], ',') == 0 by {
            lemma_count_char_concat(prefix, pairs[i], ',');
            assert(parts[i] == prefix + pairs[i]);
        }
        reveal_strlit(",");
        assert(","@ =~= seq![',']);
        lemma_joined_separator_count(parts, ',');
    }
}

/// Validates the arguments of the `bars` command in the order timespan,
/// sort, from-date, to-date, limit (at most 50,000), date order and
/// multiplier.
pub fn validate_bars_args(
    multiplier: u32,
    timespan: &str,
    from: &str,
    to: &str,
    sort: &str,
    limit: u32,
) -> (res: Result<(), MassiveError>)
    ensures
        !valid_timespan(timespan@) ==> (res matches Err(e) && e matches MassiveError::InvalidTimespan(m)
            && m@ == timespan@),
        valid_timespan(timespan@) && !valid_sort(sort@) ==> (res matches Err(e)
            && e matches MassiveError::InvalidSort(m) && m@ == sort@),
        valid_timespan(timespan@) && valid_sort(sort@) && chrono_ymd(from@) is None ==> (res matches Err(e)
            && e matches MassiveError::InvalidDate(m) && m@ == from@),
        valid_timespan(timespan@) && valid_sort(sort@) && chrono_ymd(from@) is Some && chrono_ymd(to@) is None
            ==> (res matches Err(e) && e matches MassiveError::InvalidDate(m) && m@ == to@),
        valid_timespan(timespan@) && valid_sort(sort@) && chrono_ymd(from@) is Some && chrono_ymd(to@) is Some
            ==> {
            let f = chrono_ymd(from@)->Some_0;
            let t = chrono_ymd(to@)->Some_0;
            if !(1 <= limit <= 50_000) {
                res == Err::<(), MassiveError>(MassiveError::InvalidLimit { value: limit, max: 50_000 })
            } else if !date_before(f, t) {
                res == Err::<(), MassiveError>(MassiveError::InvalidDateRange)
            } else if multiplier < 1 {
                res matches Err(e) && e matches MassiveError::Other(m)
                    && m@ == "multiplier must be a positive integer"@
            } else {
                res is Ok
            }
        },
{
    validate_timespan(timespan)?;
    validate_sort(sort)?;
    validate_date_format(from)?;
    validate_date_format(to)?;
    validate_limit(limit, 50_000)?;
    validate_date_range(from, to)?;
    if multiplier < 1 {
        return Err(MassiveError::Other("multiplier must be a positive integer".to_string()));
    }
    Ok(())
}

/// The `convert` command accepts a precision of at most 10 decimals.
pub fn validate_precision(precision: u32) -> (res: Result<(), MassiveError>)
    ensures
        res is Ok <==> precision <= 10,
        res matches Err(e) ==> e matches MassiveError::Other(m) && m@ == "precision must be no greater than 10"@,
{
    if precision > 10 {
        Err(MassiveError::Other("precision must be no greater than 10".to_string()))
    } else {
        Ok(())
    }
}

pub const BASE_URL: &'static str = "https://api.massive.com";

pub const STREAM_URL: &'static str = "wss://socket.massive.com/forex";

/// Path of the ticker search request.
pub fn search_url(base_url: &str) -> (res: String)
    ensures
        res@ == base_url@ + "/v3/reference/tickers"@,
{
    let mut url = base_url.to_string();
    url.append("/v3/reference/tickers");
    url
}

/// URL of the aggregate bars of a ticker (query parameters aside).
pub open spec fn bars_url_text(
    base: Seq<char>,
    ticker: Seq<char>,
    multiplier: u32,
    timespan: Seq<char>,
    from: Seq<char>,
    to: Seq<char>,
) -> Seq<char> {
    base + "/v2/aggs/ticker/"@ + ticker + "/range/"@ + decimal(multiplier as nat) + "/"@ + timespan + "/"@ + from
        + "/"@ + to
}

pub fn bars_url(base_url: &str, ticker: &str, multiplier: u32, timespan: &str, from: &str, to: &str) -> (res:
    String)
    ensures
        res@ == bars_url_text(base_url@, ticker@, multiplier, timespan@, from@, to@),
{
    let mut url = base_url.to_string();
    url.append("/v2/aggs/ticker/");
    url.append(ticker);
    url.append("/range/");
    push_decimal(&mut url, multiplier as u64);
    url.append("/");
    url.append(timespan);
    url.append("/");
    url.append(from);
    url.append("/");
    url.append(to);
    url
}

/// URL of the last quote of a currency pair.
pub fn last_quote_url(base_url: &str, from: &str, to: &str) -> (res: String)
    ensures
        res@ == base_url@ + "/v1/last_quote/currencies/"@ + from@ + "/"@ + to@,
{
    let mut url = base_url.to_string();
    url.append("/v1/last_quote/currencies/");
    url.append(from);
    url.append("/");
    url.append(to);
    url
}

/// URL of a currency conversion (amount and precision go in the query).
pub fn conversion_url(base_url: &str, from: &str, to: &str) -> (res: String)
    ensures
        res@ == base_url@ + "/v1/conversion/"@ + from@ + "/"@ + to@,
{
    let mut url = base_url.to_string();
    url.append("/v1/conversion/");
    url.append(from);
    url.append("/");
    url.append(to);
    url
}

/// URL of the snapshot of a forex ticker.
pub fn snapshot_url(base_url: &str, ticker: &str) -> (res: String)
    ensures
        res@ == base_url@ + "/v2/snapshot/locale/global/markets/forex/tickers/"@ + ticker@,
{
    let mut url = base_url.to_string();
    url.append("/v2/snapshot/locale/global/markets/forex/tickers/");
    url.append(ticker);
    url
}

} // verus!
