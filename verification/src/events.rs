//! The decisions taken on live-feed messages: which kind of event a
//! message announces, which candle span a Massive minute aggregate covers,
//! and which Tiingo CLI messages feed the minute aggregator. Reading the
//! JSON fields themselves is left to the application.

use vstd::prelude::*;
use vstd::string::*;
use crate::market::{Market, Timeframe, massive_channel_prefix, timeframe_secs};
use crate::text::str_eq;

verus! {

broadcast use vstd::string::group_string_axioms;

/// Why a live-feed message could not be read as an event.
pub enum EventError {
    /// A field that the event kind needs is absent.
    MissingField(String),
    /// The message names an event kind that is not known.
    UnknownType(String),
}

/// The events of the Massive feed, by their `ev` field.
#[derive(Clone, Copy, Debug, PartialEq, Eq, Structural)]
pub enum MassiveEventKind {
    /// `"status"`: connection and subscription notices.
    Status,
    /// `"CA"`: a minute aggregate of a currency pair.
    ForexMinute,
    /// `"AM"`: a minute aggregate of a stock.
    StockMinute,
    /// `"XA"`: a minute aggregate of a crypto pair.
    CryptoMinute,
}

pub open spec fn massive_event_kind_of(ev: Seq<char>) -> Option<MassiveEventKind> {
    if ev == "status"@ {
        Some(MassiveEventKind::Status)
    } else if ev == "CA"@ {
        Some(MassiveEventKind::ForexMinute)
    } else if ev == "AM"@ {
        Some(MassiveEventKind::StockMinute)
    } else if ev == "XA"@ {
        Some(MassiveEventKind::CryptoMinute)
    } else {
        None
    }
}

/// The kind of a Massive event from its `ev` field (absent reads as the
/// empty text); any other value is an unknown event type.
pub fn massive_event_kind(ev: Option<&str>) -> (res: Result<MassiveEventKind, EventError>)
    ensures
        ({
            let text = match ev {
                Some(e) => e@,
                None => Seq::<char>::empty(),
            };
            match massive_event_kind_of(text) {
                Some(k) => res == Ok::<MassiveEventKind, EventError>(k),
                None => res matches Err(EventError::UnknownType(t)) && t@ == text,
            }
        }),
{
    let text: &str = match ev {
        Some(e) => e,
        None => "",
    };
    proof {
        reveal_strlit("");
        reveal_strlit("status");
        reveal_strlit("CA");
        reveal_strlit("AM");
        reveal_strlit("XA");
    }
    assert(text@ == match ev {
        Some(e) => e@,
        None => Seq::<char>::empty(),
    });
    if str_eq(text, "status") {
        Ok(MassiveEventKind::Status)
    } else if str_eq(text, "CA") {
        Ok(MassiveEventKind::ForexMinute)
    } else if str_eq(text, "AM") {
        Ok(MassiveEventKind::StockMinute)
    } else if str_eq(text, "XA") {
        Ok(MassiveEventKind::CryptoMinute)
    } else {
        Err(EventError::UnknownType(text.to_string()))
    }
}

/// The field that names the instrument of a Massive minute aggregate:
/// `pair` for currency and crypto pairs, `sym` for stocks.
pub open spec fn massive_symbol_field(kind: MassiveEventKind) -> Option<Seq<char>> {
    match kind {
        MassiveEventKind::Status => None,
        MassiveEventKind::ForexMinute => Some("pair"@),
        MassiveEventKind::StockMinute => Some("sym"@),
        MassiveEventKind::CryptoMinute => Some("pair"@),
    }
}

pub fn massive_symbol_field_of(kind: MassiveEventKind) -> (res: Option<&'static str>)
    ensures
        match res {
            Some(f) => massive_symbol_field(kind) == Some(f@),
            None => massive_symbol_field(kind) is None,
        },
{
    proof {
        reveal_strlit("pair");
        reveal_strlit("sym");
    }
    match kind {
        MassiveEventKind::Status => None,
        MassiveEventKind::ForexMinute => Some("pair"),
        MassiveEventKind::StockMinute => Some("sym"),
        MassiveEventKind::CryptoMinute => Some("pair"),
    }
}

/// The span in Unix milliseconds of the candle that a Massive event
/// carries: a currency-pair aggregate starts at `s` and lasts one
/// timeframe, stock and crypto aggregates run from `s` to `e`, and a status
/// notice carries none.
pub open spec fn massive_candle_span(kind: MassiveEventKind, s: i64, e: i64, timeframe: Timeframe) -> Option<
    (int, int),
> {
    match kind {
        MassiveEventKind::Status => None,
        MassiveEventKind::ForexMinute => Some((s as int, s + timeframe_secs(timeframe) * 1000)),
        MassiveEventKind::StockMinute => Some((s as int, e as int)),
        MassiveEventKind::CryptoMinute => Some((s as int, e as int)),
    }
}

pub fn massive_candle_span_of(kind: MassiveEventKind, s: i64, e: i64, timeframe: Timeframe) -> (res: Option<
    (i64, i64),
>)
    requires
        s <= i64::MAX - 86_400_000,
    ensures
        match res {
            Some((a, b)) => massive_candle_span(kind, s, e, timeframe) == Some((a as int, b as int)),
            None => massive_candle_span(kind, s, e, timeframe) is None,
        },
{
    match kind {
        MassiveEventKind::Status => None,
        MassiveEventKind::ForexMinute => Some((s, s + timeframe.secs() * 1000)),
        MassiveEventKind::StockMinute => Some((s, e)),
        MassiveEventKind::CryptoMinute => Some((s, e)),
    }
}

/// The events of the Tiingo market feed, by their `messageType` field.
#[derive(Clone, Copy, Debug, PartialEq, Eq, Structural)]
pub enum TiingoEventKind {
    /// `"H"`: a heartbeat.
    HeartBeat,
    /// `"I"`: the subscription was accepted.
    Success,
    /// `"A"`: a price update.
    Update,
}

pub open spec fn tiingo_event_kind_of(message_type: Seq<char>) -> Option<TiingoEventKind> {
    if message_type == "H"@ {
        Some(TiingoEventKind::HeartBeat)
    } else if message_type == "I"@ {
        Some(TiingoEventKind::Success)
    } else if message_type == "A"@ {
        Some(TiingoEventKind::Update)
    } else {
        None
    }
}

/// The kind of a Tiingo event from its `messageType` field: its absence is
/// a missing field, and any value but `H`, `I` and `A` an unknown type.
pub fn tiingo_event_kind(message_type: Option<&str>) -> (res: Result<TiingoEventKind, EventError>)
    ensures
        match message_type {
            None => res matches Err(EventError::MissingField(f)) && f@ == "messageType"@,
            Some(t) => match tiingo_event_kind_of(t@) {
                Some(k) => res == Ok::<TiingoEventKind, EventError>(k),
                None => res matches Err(EventError::UnknownType(u)) && u@ == t@,
            },
        },
{
    proof {
        reveal_strlit("H");
        reveal_strlit("I");
        reveal_strlit("A");
    }
    match message_type {
        None => Err(EventError::MissingField("messageType".to_string())),
        Some(t) => {
            if str_eq(t, "H") {
                Ok(TiingoEventKind::HeartBeat)
            } else if str_eq(t, "I") {
                Ok(TiingoEventKind::Success)
            } else if str_eq(t, "A") {
                Ok(TiingoEventKind::Update)
            } else {
                Err(EventError::UnknownType(t.to_string()))
            }
        },
    }
}

/// What the Tiingo command-line stream does with one message.
#[derive(Clone, Copy, Debug, PartialEq, Eq, Structural)]
pub enum TiingoFeedStep {
    /// Not a trade or quote update: dropped without a word.
    Skip,
    /// An update without its data array: dropped with a warning.
    NoData,
    /// Data without its update type at index 0: dropped with a warning.
    NoUpdateType,
    /// A trade (`T`) or quote (`Q`) update: its price goes to the aggregator.
    Aggregate,
}

pub open spec fn tiingo_feed_step_of(
    message_type: Option<Seq<char>>,
    has_data: bool,
    update_type: Option<Seq<char>>,
) -> TiingoFeedStep {
    match message_type {
        None => TiingoFeedStep::Skip,
        Some(m) => if m != "A"@ {
            TiingoFeedStep::Skip
        } else if !has_data {
            TiingoFeedStep::NoData
        } else {
            match update_type {
                None => TiingoFeedStep::NoUpdateType,
                Some(u) => if u == "T"@ || u == "Q"@ {
                    TiingoFeedStep::Aggregate
                } else {
                    TiingoFeedStep::Skip
                },
            }
        },
    }
}

pub open spec fn opt_view(o: Option<&str>) -> Option<Seq<char>> {
    match o {
        Some(s) => Some(s@),
        None => None,
    }
}

/// Decides the fate of a Tiingo stream message from its `messageType`,
/// whether it has a `data` array, and the text at index 0 of that array.
pub fn tiingo_feed_step(message_type: Option<&str>, has_data: bool, update_type: Option<&str>) -> (res:
    TiingoFeedStep)
    ensures
        res == tiingo_feed_step_of(opt_view(message_type), has_data, opt_view(update_type)),
{
    proof {
        reveal_strlit("A");
        reveal_strlit("T");
        reveal_strlit("Q");
    }
    match message_type {
        None => TiingoFeedStep::Skip,
        Some(m) => {
            if !str_eq(m, "A") {
                TiingoFeedStep::Skip
            } else if !has_data {
                TiingoFeedStep::NoData
            } else {
                match update_type {
                    None => TiingoFeedStep::NoUpdateType,
                    Some(u) => {
                        if str_eq(u, "T") || str_eq(u, "Q") {
                            TiingoFeedStep::Aggregate
                        } else {
                            TiingoFeedStep::Skip
                        }
                    },
                }
            }
        },
    }
}

/// Picks, from the `ev` fields of the events of one feed message (an
/// absent field read as the empty text), the positions of the currency-pair
/// minute aggregates (`"CA"`), in order: each such event is routed once and
/// every other event is dropped.
pub fn minute_aggregate_positions(evs: &[String]) -> (res: Vec<usize>)
    ensures
        forall|a: int, b: int| 0 <= a < b < res@.len() ==> res@[a] < res@[b],
        forall|a: int| 0 <= a < res@.len() ==> res@[a] < evs@.len() && evs@[res@[a] as int]@ == "CA"@,
        forall|i: int| 0 <= i < evs@.len() && #[trigger] evs@[i]@ == "CA"@ ==> exists|a: int|
            0 <= a < res@.len() && res@[a] == i,
{
    let mut res: Vec<usize> = Vec::new();
    let mut i: usize = 0;
    while i < evs.len()
        invariant
            i <= evs@.len(),
            forall|a: int, b: int| 0 <= a < b < res@.len() ==> res@[a] < res@[b],
            forall|a: int| 0 <= a < res@.len() ==> res@[a] < i && evs@[res@[a] as int]@ == "CA"@,
            forall|j: int| 0 <= j < i && #[trigger] evs@[j]@ == "CA"@ ==> exists|a: int|
                0 <= a < res@.len() && res@[a] == j,
        decreases evs@.len() - i,
    {
        if str_eq(evs[i].as_str(), "CA") {
            let ghost before = res@;
            res.push(i);
            proof {
                assert forall|j: int| 0 <= j < i + 1 && #[trigger] evs@[j]@ == "CA"@ implies exists|a: int|
                    0 <= a < res@.len() && res@[a] == j by {
                    if j < i {
                        let a = choose|a: int| 0 <= a < before.len() && before[a] == j;
                        assert(res@[a] == j);
                    } else {
                        assert(res@[before.len() as int] == j);
                    }
                }
            }
        }
        i = i + 1;
    }
    res
}

/// The market whose minute aggregates an event kind carries.
pub open spec fn minute_kind_market(kind: MassiveEventKind) -> Option<Market> {
    match kind {
        MassiveEventKind::Status => None,
        MassiveEventKind::ForexMinute => Some(Market::Forex),
        MassiveEventKind::StockMinute => Some(Market::Stock),
        MassiveEventKind::CryptoMinute => Some(Market::Crypto),
    }
}

/// A market's subscription channel is named by the event type of its own
/// minute aggregates followed by a dot: what the live stream subscribes to
/// is what the feed decoder reads back as that market's candles, and no
/// two markets share a channel.
pub proof fn law_channel_prefix_is_the_minute_event(m: Market, other: Market)
    ensures
        massive_channel_prefix(m).len() == 3,
        massive_channel_prefix(m).last() == '.',
        massive_event_kind_of(massive_channel_prefix(m).drop_last()) matches Some(k) && minute_kind_market(k)
            == Some(m),
        m != other ==> massive_channel_prefix(m) != massive_channel_prefix(other),
{
    reveal_strlit("CA.");
    reveal_strlit("AM.");
    reveal_strlit("XA.");
    reveal_strlit("CA");
    reveal_strlit("AM");
    reveal_strlit("XA");
    reveal_strlit("status");
    assert("CA"@ != "status"@ && "AM"@ != "status"@ && "XA"@ != "status"@) by {
        assert("CA"@.len() != "status"@.len());
        assert("AM"@.len() != "status"@.len());
        assert("XA"@.len() != "status"@.len());
    }
    assert("AM"@ != "CA"@ && "XA"@ != "CA"@ && "XA"@ != "AM"@) by {
        assert("AM"@[0] != "CA"@[0]);
        assert("XA"@[0] != "CA"@[0]);
        assert("XA"@[0] != "AM"@[0]);
    }
    assert("CA."@.drop_last() =~= "CA"@);
    assert("AM."@.drop_last() =~= "AM"@);
    assert("XA."@.drop_last() =~= "XA"@);
    assert("CA."@ != "AM."@ && "CA."@ != "XA."@ && "AM."@ != "XA."@) by {
        assert("CA."@[0] != "AM."@[0]);
        assert("CA."@[0] != "XA."@[0]);
        assert("AM."@[0] != "XA."@[0]);
    }
}

/// Currency-pair and crypto-pair aggregates name their instrument by the
/// same field, stock aggregates by another, and status notices by none.
pub proof fn law_pair_aggregates_share_their_symbol_field(kind: MassiveEventKind)
    ensures
        massive_symbol_field(MassiveEventKind::CryptoMinute) == massive_symbol_field(MassiveEventKind::ForexMinute),
        massive_symbol_field(MassiveEventKind::StockMinute) != massive_symbol_field(MassiveEventKind::ForexMinute),
        massive_symbol_field(kind) is None <==> kind == MassiveEventKind::Status,
{
    reveal_strlit("pair");
    reveal_strlit("sym");
    assert("pair"@ != "sym"@) by {
        assert("pair"@.len() != "sym"@.len());
    }
}

} // verus!
