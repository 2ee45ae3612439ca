use market_cli::candle::CandleAggregator;
use market_cli::events::{
    massive_candle_span_of, massive_event_kind, massive_symbol_field_of, minute_aggregate_positions,
    tiingo_event_kind, tiingo_feed_step, EventError, MassiveEventKind, TiingoEventKind, TiingoFeedStep,
};
use market_cli::market::Timeframe;
use market_cli::time::{millis_of, parse_instant, Instant};

#[derive(Clone, Copy, Debug, PartialEq)]
struct Prices {
    open: f64,
    high: f64,
    low: f64,
    close: f64,
}

fn tick(agg: &mut CandleAggregator<Prices>, ticker: &str, price: f64, secs: i64) -> Option<(i64, i64, Prices)> {
    let fresh = Prices { open: price, high: price, low: price, close: price };
    agg.update(ticker, Instant { secs, nanos: 0 }, fresh, move |p: Prices| Prices {
        open: p.open,
        high: if price > p.high { price } else { p.high },
        low: if price < p.low { price } else { p.low },
        close: price,
    })
    .map(|c| (c.start.secs, c.end.secs, c.prices))
}

#[test]
fn candle_closes_after_its_end_and_drops_the_closing_tick() {
    let mut agg = CandleAggregator::new(Timeframe::M1);
    assert_eq!(tick(&mut agg, "BTC", 10.0, 1_000), None);
    assert_eq!(tick(&mut agg, "BTC", 12.0, 1_030), None);
    assert_eq!(tick(&mut agg, "BTC", 8.0, 1_060), None);
    assert_eq!(tick(&mut agg, "ETH", 1.0, 1_050), None);
    let closed = tick(&mut agg, "BTC", 11.0, 1_061);
    assert_eq!(closed, Some((1_000, 1_060, Prices { open: 10.0, high: 12.0, low: 8.0, close: 8.0 })));
    // The closing tick opened nothing: the next tick opens a fresh candle.
    assert_eq!(tick(&mut agg, "BTC", 20.0, 1_062), None);
    assert_eq!(tick(&mut agg, "BTC", 21.0, 1_123), Some((1_062, 1_122, Prices { open: 20.0, high: 20.0, low: 20.0, close: 20.0 })));
    // Other tickers keep their candle.
    assert_eq!(tick(&mut agg, "ETH", 2.0, 1_111), Some((1_050, 1_110, Prices { open: 1.0, high: 1.0, low: 1.0, close: 1.0 })));
}

#[test]
fn candle_end_is_inclusive_to_the_nanosecond() {
    let mut agg: CandleAggregator<u32> = CandleAggregator::new(Timeframe::H1);
    assert!(agg.update("X", Instant { secs: 0, nanos: 500 }, 0, |n: u32| n.saturating_add(1)).is_none());
    assert!(agg.update("X", Instant { secs: 3_600, nanos: 500 }, 0, |n: u32| n.saturating_add(1)).is_none());
    let closed = agg.update("X", Instant { secs: 3_600, nanos: 501 }, 0, |n: u32| n.saturating_add(1)).unwrap();
    assert_eq!(closed.start, Instant { secs: 0, nanos: 500 });
    assert_eq!(closed.end, Instant { secs: 3_600, nanos: 500 });
    assert_eq!(closed.prices, 2);
    assert_eq!(closed.ticker, "X");
}

#[test]
fn massive_event_kinds() {
    assert_eq!(massive_event_kind(Some("status")).ok(), Some(MassiveEventKind::Status));
    assert_eq!(massive_event_kind(Some("CA")).ok(), Some(MassiveEventKind::ForexMinute));
    assert_eq!(massive_event_kind(Some("AM")).ok(), Some(MassiveEventKind::StockMinute));
    assert_eq!(massive_event_kind(Some("XA")).ok(), Some(MassiveEventKind::CryptoMinute));
    match massive_event_kind(Some("T")) {
        Err(EventError::UnknownType(t)) => assert_eq!(t, "T"),
        _ => panic!("expected an unknown type"),
    }
    match massive_event_kind(None) {
        Err(EventError::UnknownType(t)) => assert_eq!(t, ""),
        _ => panic!("expected an unknown type"),
    }
    assert_eq!(massive_symbol_field_of(MassiveEventKind::StockMinute), Some("sym"));
    assert_eq!(massive_symbol_field_of(MassiveEventKind::ForexMinute), Some("pair"));
    assert_eq!(massive_symbol_field_of(MassiveEventKind::Status), None);
}

#[test]
fn massive_candle_spans() {
    assert_eq!(massive_candle_span_of(MassiveEventKind::ForexMinute, 1_000, 5, Timeframe::M1), Some((1_000, 61_000)));
    assert_eq!(massive_candle_span_of(MassiveEventKind::StockMinute, 1_000, 5_000, Timeframe::M1), Some((1_000, 5_000)));
    assert_eq!(massive_candle_span_of(MassiveEventKind::CryptoMinute, 7, 9, Timeframe::D1), Some((7, 9)));
    assert_eq!(massive_candle_span_of(MassiveEventKind::Status, 7, 9, Timeframe::D1), None);
}

#[test]
fn only_currency_minute_aggregates_are_routed() {
    let evs: Vec<String> = vec!["status".into(), "CA".into(), "".into(), "CA".into(), "XA".into()];
    assert_eq!(minute_aggregate_positions(&evs), vec![1, 3]);
    let none: Vec<String> = vec!["AM".into(), "ca".into()];
    assert!(minute_aggregate_positions(&none).is_empty());
}

#[test]
fn tiingo_event_kinds() {
    assert_eq!(tiingo_event_kind(Some("H")).ok(), Some(TiingoEventKind::HeartBeat));
    assert_eq!(tiingo_event_kind(Some("I")).ok(), Some(TiingoEventKind::Success));
    assert_eq!(tiingo_event_kind(Some("A")).ok(), Some(TiingoEventKind::Update));
    match tiingo_event_kind(None) {
        Err(EventError::MissingField(f)) => assert_eq!(f, "messageType"),
        _ => panic!("expected a missing field"),
    }
    match tiingo_event_kind(Some("Z")) {
        Err(EventError::UnknownType(t)) => assert_eq!(t, "Z"),
        _ => panic!("expected an unknown type"),
    }
}

#[test]
fn tiingo_feed_steps() {
    assert_eq!(tiingo_feed_step(None, true, Some("T")), TiingoFeedStep::Skip);
    assert_eq!(tiingo_feed_step(Some("H"), true, Some("T")), TiingoFeedStep::Skip);
    assert_eq!(tiingo_feed_step(Some("A"), false, None), TiingoFeedStep::NoData);
    assert_eq!(tiingo_feed_step(Some("A"), true, None), TiingoFeedStep::NoUpdateType);
    assert_eq!(tiingo_feed_step(Some("A"), true, Some("T")), TiingoFeedStep::Aggregate);
    assert_eq!(tiingo_feed_step(Some("A"), true, Some("Q")), TiingoFeedStep::Aggregate);
    assert_eq!(tiingo_feed_step(Some("A"), true, Some("X")), TiingoFeedStep::Skip);
}

#[test]
fn iso_instants() {
    let t = parse_instant("2019-01-30T18:03:40+00:00").unwrap();
    assert_eq!(t, Instant { secs: 1_548_871_420, nanos: 0 });
    assert_eq!(millis_of(t), 1_548_871_420_000);
    let offset = parse_instant("2019-01-30T19:03:40.250+01:00").unwrap();
    assert_eq!(offset, Instant { secs: 1_548_871_420, nanos: 250_000_000 });
    assert_eq!(millis_of(offset), 1_548_871_420_250);
    let before_epoch = parse_instant("1969-12-31T23:59:59.5Z").unwrap();
    assert_eq!(before_epoch, Instant { secs: -1, nanos: 500_000_000 });
    assert_eq!(millis_of(before_epoch), -500);
    assert_eq!(parse_instant("yesterday"), None);
}
