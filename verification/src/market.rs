//! Provider-independent market data: tickers, markets, timeframes and
//! assets, and the provider-specific spellings of them that the Massive and
//! Tiingo back ends use in their requests. Candles and ticks carry float
//! prices and are handled by the application.

use vstd::prelude::*;
use vstd::string::*;
use crate::text::{decimal, push_decimal, str_eq};
use crate::time::{Instant, chrono_rfc3339, instant_in_range, parse_rfc3339, shifted};

verus! {

broadcast use vstd::string::group_string_axioms;

/// A ticker symbol such as "AAPL" or "EURUSD".
pub struct Ticker(pub String);

impl View for Ticker {
    type V = Seq<char>;

    open spec fn view(&self) -> Seq<char> {
        self.0@
    }
}

impl Ticker {
    pub fn from(value: &str) -> (res: Ticker)
        ensures
            res@ == value@,
    {
        Ticker(value.to_string())
    }

    pub fn as_str(&self) -> (res: &str)
        ensures
            res@ == self@,
    {
        self.0.as_str()
    }

    /// The ticker with `prefix` in front of it.
    pub fn prefix(&self, prefix: &str) -> (res: Ticker)
        ensures
            res@ == prefix@ + self@,
    {
        let mut s = prefix.to_string();
        s.append(self.0.as_str());
        Ticker(s)
    }

    pub fn clone_ticker(&self) -> (res: Ticker)
        ensures
            res@ == self@,
    {
        Ticker(self.0.clone())
    }
}

#[derive(Clone, Copy, Debug, PartialEq, Eq, Structural)]
pub enum Market {
    Forex,
    Stock,
    Crypto,
}

#[derive(Clone, Copy, Debug, PartialEq, Eq, Structural)]
pub enum Timeframe {
    M1,
    M5,
    M15,
    H1,
    H4,
    D1,
}

pub open spec fn timeframe_secs(t: Timeframe) -> int {
    match t {
        Timeframe::M1 => 60int,
        Timeframe::M5 => 300int,
        Timeframe::M15 => 900int,
        Timeframe::H1 => 3600int,
        Timeframe::H4 => 14400int,
        Timeframe::D1 => 86400int,
    }
}

impl Timeframe {
    /// Length of the timeframe in seconds.
    pub fn secs(&self) -> (res: i64)
        ensures
            res == timeframe_secs(*self),
    {
        match self {
            Timeframe::M1 => 60,
            Timeframe::M5 => 60 * 5,
            Timeframe::M15 => 60 * 15,
            Timeframe::H1 => 60 * 60,
            Timeframe::H4 => 60 * 60 * 4,
            Timeframe::D1 => 60 * 60 * 24,
        }
    }
}

pub struct Asset {
    pub ticker: Ticker,
    pub name: String,
    pub market: Market,
}

/// Ticker search result of Massive.
pub struct MassiveTickerSearchResult {
    pub name: String,
    pub ticker: Ticker,
    pub market: String,
}

pub struct MassiveSearchResult {
    pub request_id: String,
    pub results: MassiveTickerSearchResult,
}

/// Ticker search result of Tiingo.
pub struct TiingoSearchResult {
    pub name: String,
    pub ticker: Ticker,
    pub perma_ticker: String,
    pub open_figicomposite: Option<String>,
    pub asset_type: String,
    pub is_active: bool,
    pub country_code: String,
}

/// The market that Massive's name of it denotes.
pub open spec fn massive_market(name: Seq<char>) -> Option<Market> {
    if name == "stocks"@ {
        Some(Market::Stock)
    } else if name == "fx"@ {
        Some(Market::Forex)
    } else if name == "crypto"@ {
        Some(Market::Crypto)
    } else {
        None
    }
}

pub fn parse_massive_market(name: &str) -> (res: Option<Market>)
    ensures
        res == massive_market(name@),
{
    if str_eq(name, "stocks") {
        Some(Market::Stock)
    } else if str_eq(name, "fx") {
        Some(Market::Forex)
    } else if str_eq(name, "crypto") {
        Some(Market::Crypto)
    } else {
        None
    }
}

/// The market that Tiingo's asset type denotes.
pub open spec fn tiingo_market(asset_type: Seq<char>) -> Option<Market> {
    if asset_type == "STOCK"@ {
        Some(Market::Stock)
    } else if asset_type == "FOREX"@ {
        Some(Market::Forex)
    } else if asset_type == "CRYPTO"@ {
        Some(Market::Crypto)
    } else {
        None
    }
}

pub fn parse_tiingo_market(asset_type: &str) -> (res: Option<Market>)
    ensures
        res == tiingo_market(asset_type@),
{
    if str_eq(asset_type, "STOCK") {
        Some(Market::Stock)
    } else if str_eq(asset_type, "FOREX") {
        Some(Market::Forex)
    } else if str_eq(asset_type, "CRYPTO") {
        Some(Market::Crypto)
    } else {
        None
    }
}

impl Asset {
    /// The asset that a Massive search result describes; its market name
    /// must be one of "stocks", "fx" and "crypto".
    pub fn from_massive(value: MassiveTickerSearchResult) -> (res: Asset)
        requires
            massive_market(value.market@) is Some,
        ensures
            res.ticker@ == value.ticker@,
            res.name@ == value.name@,
            Some(res.market) == massive_market(value.market@),
    {
        let market = match parse_massive_market(value.market.as_str()) {
            Some(m) => m,
            None => Market::Stock,
        };
        Asset { ticker: value.ticker, name: value.name, market }
    }

    /// The asset that a Tiingo search result describes; its asset type
    /// must be one of "STOCK", "FOREX" and "CRYPTO".
    pub fn from_tiingo(value: TiingoSearchResult) -> (res: Asset)
        requires
            tiingo_market(value.asset_type@) is Some,
        ensures
            res.ticker@ == value.ticker@,
            res.name@ == value.name@,
            Some(res.market) == tiingo_market(value.asset_type@),
    {
        let market = match parse_tiingo_market(value.asset_type.as_str()) {
            Some(m) => m,
            None => Market::Stock,
        };
        Asset { ticker: value.ticker, name: value.name, market }
    }
}

/// The ticker as Massive spells it: forex pairs carry the prefix "C:".
pub open spec fn massive_ticker_text(ticker: Seq<char>, market: Market) -> Seq<char> {
    match market {
        Market::Forex => "C:"@ + ticker,
        _ => ticker,
    }
}

pub fn massive_ticker(ticker: &Ticker, market: Market) -> (res: Ticker)
    ensures
        res@ == massive_ticker_text(ticker@, market),
{
    match market {
        Market::Forex => ticker.prefix("C:"),
        Market::Stock => ticker.clone_ticker(),
        Market::Crypto => ticker.clone_ticker(),
    }
}

/// Massive's name of a market.
pub open spec fn massive_market_text(market: Market) -> Seq<char> {
    match market {
        Market::Forex => "fx"@,
        Market::Stock => "stocks"@,
        Market::Crypto => "crypto"@,
    }
}

/// Massive's name of a market in search requests.
pub fn massive_market_name(market: Market) -> (res: &'static str)
    ensures
        res@ == massive_market_text(market),
{
    match market {
        Market::Forex => "fx",
        Market::Stock => "stocks",
        Market::Crypto => "crypto",
    }
}

/// Multiplier and timespan of Massive's aggregate bars for a timeframe.
pub open spec fn massive_bar_size(t: Timeframe) -> (u32, Seq<char>) {
    match t {
        Timeframe::M1 => (1, "minute"@),
        Timeframe::M5 => (5, "minute"@),
        Timeframe::M15 => (15, "minute"@),
        Timeframe::H1 => (1, "hour"@),
        Timeframe::H4 => (4, "hour"@),
        Timeframe::D1 => (1, "day"@),
    }
}

pub fn massive_bar_size_of(t: Timeframe) -> (res: (u32, &'static str))
    ensures
        (res.0, res.1@) == massive_bar_size(t),
{
    match t {
        Timeframe::M1 => (1, "minute"),
        Timeframe::M5 => (5, "minute"),
        Timeframe::M15 => (15, "minute"),
        Timeframe::H1 => (1, "hour"),
        Timeframe::H4 => (4, "hour"),
        Timeframe::D1 => (1, "day"),
    }
}

/// Path segment of Massive's live stream for a market.
pub open spec fn massive_stream_path(market: Market) -> Seq<char> {
    match market {
        Market::Forex => "/forex"@,
        Market::Stock => "/stocks"@,
        Market::Crypto => "/crypto"@,
    }
}

/// Prefix of Massive's subscription channel for a market's aggregates.
pub open spec fn massive_channel_prefix(market: Market) -> Seq<char> {
    match market {
        Market::Forex => "CA."@,
        Market::Stock => "AM."@,
        Market::Crypto => "XA."@,
    }
}

pub const MASSIVE_BASE_URL: &'static str = "https://api.massive.com/";

pub const MASSIVE_STREAM_BASE_URL: &'static str = "wss://socket.massive.com/";

/// URL of Massive's live stream for a market.
pub fn massive_stream_url(market: Market) -> (res: String)
    ensures
        res@ == MASSIVE_STREAM_BASE_URL@ + massive_stream_path(market),
{
    let mut url = MASSIVE_STREAM_BASE_URL.to_string();
    match market {
        Market::Forex => url.append("/forex"),
        Market::Stock => url.append("/stocks"),
        Market::Crypto => url.append("/crypto"),
    }
    url
}

/// The subscription channels for `tickers` on Massive: each ticker as
/// Massive spells it, behind the market's channel prefix.
pub fn massive_channels(tickers: &[Ticker], market: Market) -> (res: Vec<Ticker>)
    ensures
        res@.len() == tickers@.len(),
        forall|i: int| 0 <= i < tickers@.len() ==> #[trigger] res@[i]@ == massive_channel_prefix(market)
            + massive_ticker_text(tickers@[i]@, market),
{
    let prefix: &str = match market {
        Market::Forex => "CA.",
        Market::Stock => "AM.",
        Market::Crypto => "XA.",
    };
    proof {
        reveal_strlit("CA.");
        reveal_strlit("AM.");
        reveal_strlit("XA.");
    }
    let mut res: Vec<Ticker> = Vec::new();
    let mut i: usize = 0;
    while i < tickers.len()
        invariant
            i <= tickers@.len(),
            res@.len() == i,
            prefix@ == massive_channel_prefix(market),
            forall|k: int| 0 <= k < i ==> #[trigger] res@[k]@ == massive_channel_prefix(market)
                + massive_ticker_text(tickers@[k]@, market),
        decreases tickers@.len() - i,
    {
        let t = massive_ticker(&tickers[i], market);
        res.push(t.prefix(prefix));
        i = i + 1;
    }
    res
}

/// Tiingo's resampling frequency of intraday prices for a timeframe; daily
/// prices come from their own endpoint.
pub open spec fn tiingo_frequency(t: Timeframe) -> Option<Seq<char>> {
    match t {
        Timeframe::M1 => Some("1min"@),
        Timeframe::M5 => Some("5min"@),
        Timeframe::M15 => Some("15min"@),
        Timeframe::H1 => Some("1hour"@),
        Timeframe::H4 => Some("4hour"@),
        Timeframe::D1 => None,
    }
}

pub fn tiingo_frequency_of(t: Timeframe) -> (res: Option<&'static str>)
    ensures
        match res {
            Some(f) => tiingo_frequency(t) == Some(f@),
            None => tiingo_frequency(t) is None,
        },
{
    match t {
        Timeframe::M1 => Some("1min"),
        Timeframe::M5 => Some("5min"),
        Timeframe::M15 => Some("15min"),
        Timeframe::H1 => Some("1hour"),
        Timeframe::H4 => Some("4hour"),
        Timeframe::D1 => None,
    }
}

/// Tiingo's path segment of a market, for intraday prices and streams.
pub open spec fn tiingo_market_path(market: Market) -> Seq<char> {
    match market {
        Market::Forex => "fx"@,
        Market::Stock => "iex"@,
        Market::Crypto => "crypto"@,
    }
}

pub fn tiingo_market_path_of(market: Market) -> (res: &'static str)
    ensures
        res@ == tiingo_market_path(market),
{
    match market {
        Market::Forex => "fx",
        Market::Stock => "iex",
        Market::Crypto => "crypto",
    }
}

/// URL of Massive's ticker reference for a ticker of a market.
pub open spec fn massive_search_url_text(ticker: Seq<char>, market: Market) -> Seq<char> {
    MASSIVE_BASE_URL@ + "/v3/reference/tickers/"@ + massive_ticker_text(ticker, market)
}

pub fn massive_search_url(ticker: &Ticker, market: Market) -> (res: String)
    ensures
        res@ == massive_search_url_text(ticker@, market),
{
    let t = massive_ticker(ticker, market);
    let mut url = MASSIVE_BASE_URL.to_string();
    url.append("/v3/reference/tickers/");
    url.append(t.as_str());
    url
}

/// URL of Massive's aggregate bars of a ticker for a timeframe between two
/// dates (`YYYY-MM-DD`).
pub open spec fn massive_candles_url_text(
    ticker: Seq<char>,
    market: Market,
    timeframe: Timeframe,
    from: Seq<char>,
    to: Seq<char>,
) -> Seq<char> {
    let (multiplier, timespan) = massive_bar_size(timeframe);
    MASSIVE_BASE_URL@ + "/v2/aggs/ticker/"@ + massive_ticker_text(ticker, market) + "/range/"@ + decimal(
        multiplier as nat,
    ) + "/"@ + timespan + "/"@ + from + "/"@ + to
}

pub fn massive_candles_url(ticker: &Ticker, market: Market, timeframe: Timeframe, from: &str, to: &str) -> (res:
    String)
    ensures
        res@ == massive_candles_url_text(ticker@, market, timeframe, from@, to@),
{
    let t = massive_ticker(ticker, market);
    let (multiplier, timespan) = massive_bar_size_of(timeframe);
    let mut url = MASSIVE_BASE_URL.to_string();
    url.append("/v2/aggs/ticker/");
    url.append(t.as_str());
    url.append("/range/");
    push_decimal(&mut url, multiplier as u64);
    url.append("/");
    url.append(timespan);
    url.append("/");
    url.append(from);
    url.append("/");
    url.append(to);
    url
}

/// The span in Unix milliseconds of a Massive bar that starts at `t`: one
/// timeframe long.
pub fn massive_bar_span(t: i64, timeframe: Timeframe) -> (res: (i64, i64))
    requires
        t <= i64::MAX - 86_400_000,
    ensures
        res == (t, (t + timeframe_secs(timeframe) * 1000) as i64),
{
    (t, t + timeframe.secs() * 1000)
}

pub const TIINGO_BASE_URL: &'static str = "https://api.tiingo.com";

/// URL of Tiingo's daily prices of a ticker.
pub open spec fn tiingo_daily_url_text(ticker: Seq<char>) -> Seq<char> {
    TIINGO_BASE_URL@ + "/tiingo/daily/"@ + ticker + "/prices"@
}

pub fn tiingo_daily_url(ticker: &Ticker) -> (res: String)
    ensures
        res@ == tiingo_daily_url_text(ticker@),
{
    let mut url = TIINGO_BASE_URL.to_string();
    url.append("/tiingo/daily/");
    url.append(ticker.as_str());
    url.append("/prices");
    url
}

/// URL of Tiingo's intraday prices of a ticker of a market.
pub open spec fn tiingo_intraday_url_text(market: Market, ticker: Seq<char>) -> Seq<char> {
    TIINGO_BASE_URL@ + "/"@ + tiingo_market_path(market) + "/"@ + ticker + "/prices"@
}

pub fn tiingo_intraday_url(market: Market, ticker: &Ticker) -> (res: String)
    ensures
        res@ == tiingo_intraday_url_text(market, ticker@),
{
    let mut url = TIINGO_BASE_URL.to_string();
    url.append("/");
    url.append(tiingo_market_path_of(market));
    url.append("/");
    url.append(ticker.as_str());
    url.append("/prices");
    url
}

pub const TIINGO_STREAM_BASE_URL: &'static str = "wss://api.tiingo.com";

/// URL of Tiingo's live stream for a market.
pub fn tiingo_stream_url(market: Market) -> (res: String)
    ensures
        res@ == TIINGO_STREAM_BASE_URL@ + "/"@ + tiingo_market_path(market),
{
    let mut url = TIINGO_STREAM_BASE_URL.to_string();
    url.append("/");
    url.append(tiingo_market_path_of(market));
    url
}

/// The position of the first search result whose ticker is exactly the
/// one asked for, if any.
pub fn tiingo_exact_match(results: &[TiingoSearchResult], ticker: &Ticker) -> (res: Option<usize>)
    ensures
        match res {
            Some(i) => i < results@.len() && results@[i as int].ticker@ == ticker@ && forall|j: int|
                0 <= j < i ==> #[trigger] results@[j].ticker@ != ticker@,
            None => forall|j: int| 0 <= j < results@.len() ==> #[trigger] results@[j].ticker@ != ticker@,
        },
{
    let mut i: usize = 0;
    while i < results.len()
        invariant
            i <= results@.len(),
            forall|j: int| 0 <= j < i ==> #[trigger] results@[j].ticker@ != ticker@,
        decreases results@.len() - i,
    {
        if str_eq(results[i].ticker.as_str(), ticker.as_str()) {
            return Some(i);
        }
        i = i + 1;
    }
    None
}

/// The span of a Tiingo price bar: from its RFC 3339 date to one timeframe
/// later; `None` when the date cannot be read, and the bar is then left
/// out.
pub fn tiingo_bar_span(date: &str, timeframe: Timeframe) -> (res: Option<(Instant, Instant)>)
    ensures
        res == match chrono_rfc3339(date@) {
            Some(t) => Some((t, shifted(t, timeframe_secs(timeframe)))),
            None => None::<(Instant, Instant)>,
        },
        res matches Some((start, end)) ==> instant_in_range(start) && end.secs == start.secs + timeframe_secs(
            timeframe,
        ) && end.nanos == start.nanos,
{
    match parse_rfc3339(date) {
        Some(start) => {
            let end = Instant { secs: start.secs + timeframe.secs(), nanos: start.nanos };
            Some((start, end))
        },
        None => None,
    }
}

/// Seconds in one of Massive's bar units.
pub open spec fn bar_unit_secs(unit: Seq<char>) -> int {
    if unit == "minute"@ {
        60
    } else if unit == "hour"@ {
        3600
    } else if unit == "day"@ {
        86400
    } else {
        0
    }
}

/// The bar Massive is asked for is exactly one timeframe long, counted in
/// the largest of its units (minute, hour, day) that divides the timeframe.
pub proof fn law_massive_bar_is_one_timeframe(t: Timeframe)
    ensures
        bar_unit_secs(massive_bar_size(t).1) > 0,
        massive_bar_size(t).0 * bar_unit_secs(massive_bar_size(t).1) == timeframe_secs(t),
        forall|u: int|
            (u == 60 || u == 3600 || u == 86400) && #[trigger] (timeframe_secs(t) % u) == 0 ==> u <= bar_unit_secs(
                massive_bar_size(t).1,
            ),
{
    reveal_strlit("minute");
    reveal_strlit("hour");
    reveal_strlit("day");
    assert("hour"@ != "minute"@) by {
        assert("hour"@.len() != "minute"@.len());
    }
    assert("day"@ != "minute"@ && "day"@ != "hour"@) by {
        assert("day"@.len() != "minute"@.len());
        assert("day"@.len() != "hour"@.len());
    }
    assert forall|u: int|
        (u == 60 || u == 3600 || u == 86400) && #[trigger] (timeframe_secs(t) % u) == 0 implies u <= bar_unit_secs(
        massive_bar_size(t).1,
    ) by {
        match t {
            Timeframe::M1 => {},
            Timeframe::M5 => {},
            Timeframe::M15 => {},
            Timeframe::H1 => {},
            Timeframe::H4 => {},
            Timeframe::D1 => {},
        }
    }
}

/// Reading Massive's name of a market gives that market back, so every
/// market has its own name.
pub proof fn law_massive_market_names_read_back(m: Market)
    ensures
        massive_market(massive_market_text(m)) == Some(m),
{
    reveal_strlit("fx");
    reveal_strlit("stocks");
    reveal_strlit("crypto");
    assert("fx"@ != "stocks"@ && "crypto"@ != "stocks"@ && "crypto"@ != "fx"@) by {
        assert("fx"@.len() != "stocks"@.len());
        assert("crypto"@[0] != "stocks"@[0]);
        assert("crypto"@.len() != "fx"@.len());
    }
}

/// Seconds in one of Tiingo's frequency units.
pub open spec fn frequency_unit_secs(unit: Seq<char>) -> int {
    if unit == "min"@ {
        60
    } else if unit == "hour"@ {
        3600
    } else {
        0
    }
}

/// Tiingo's resampling frequency of an intraday timeframe is a count and a
/// unit (`min` or `hour`) that together last exactly the timeframe, in
/// hours wherever the timeframe is a whole number of hours; the daily
/// timeframe has no frequency, as it has its own endpoint. The result is
/// the count and the unit.
pub proof fn law_tiingo_frequency_is_one_timeframe(t: Timeframe) -> (r: (nat, Seq<char>))
    ensures
        tiingo_frequency(t) is None <==> timeframe_secs(t) % 86400 == 0,
        tiingo_frequency(t) is Some ==> {
            &&& tiingo_frequency(t) == Some(decimal(r.0) + r.1)
            &&& frequency_unit_secs(r.1) > 0
            &&& r.0 * frequency_unit_secs(r.1) == timeframe_secs(t)
            &&& (timeframe_secs(t) % 3600 == 0 <==> r.1 == "hour"@)
        },
{
    reveal_strlit("min");
    reveal_strlit("hour");
    reveal_strlit("1min");
    reveal_strlit("5min");
    reveal_strlit("15min");
    reveal_strlit("1hour");
    reveal_strlit("4hour");
    assert("min"@ != "hour"@) by {
        assert("min"@.len() != "hour"@.len());
    }
    assert(decimal(1) == seq!['1']);
    assert(decimal(4) == seq!['4']);
    assert(decimal(5) == seq!['5']);
    assert(decimal(15) == seq!['1', '5']) by {
        reveal_with_fuel(decimal, 2);
    }
    match t {
        Timeframe::M1 => {
            assert("1min"@ =~= decimal(1) + "min"@);
            (1, "min"@)
        },
        Timeframe::M5 => {
            assert("5min"@ =~= decimal(5) + "min"@);
            (5, "min"@)
        },
        Timeframe::M15 => {
            assert("15min"@ =~= decimal(15) + "min"@);
            (15, "min"@)
        },
        Timeframe::H1 => {
            assert("1hour"@ =~= decimal(1) + "hour"@);
            (1, "hour"@)
        },
        Timeframe::H4 => {
            assert("4hour"@ =~= decimal(4) + "hour"@);
            (4, "hour"@)
        },
        Timeframe::D1 => (1, "day"@),
    }
}

/// The failures that the shared response check reports.
#[derive(Debug)]
pub enum StatusError {
    Unauthorized,
    RateLimited,
    HttpError { status: u16, message: String },
}

/// Maps the status of an HTTP response, and its body, to the error the
/// market and chat back ends report: 401 and 403 are unauthorized, 429 is
/// rate limiting, any other failure carries its status and body.
pub fn check_status(status: u16, body: &str) -> (res: Result<(), StatusError>)
    ensures
        res is Ok <==> 200 <= status <= 299,
        status == 401 || status == 403 ==> res == Err::<(), StatusError>(StatusError::Unauthorized),
        status == 429 ==> res == Err::<(), StatusError>(StatusError::RateLimited),
        !(200 <= status <= 299) && status != 401 && status != 403 && status != 429 ==> (res matches Err(e)
            && e matches StatusError::HttpError { status: code, message } && code == status
            && message@ == body@),
{
    if 200 <= status && status <= 299 {
        Ok(())
    } else if status == 401 || status == 403 {
        Err(StatusError::Unauthorized)
    } else if status == 429 {
        Err(StatusError::RateLimited)
    } else {
        Err(StatusError::HttpError { status, message: body.to_string() })
    }
}

} // verus!
