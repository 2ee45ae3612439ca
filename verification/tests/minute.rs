use market_cli::minute::MinuteAggregator;
use market_cli::stream::{next_action, StreamAction, StreamEvent};

#[derive(Clone, Copy, Debug, PartialEq)]
struct Ohlc {
    open: f64,
    high: f64,
    low: f64,
    close: f64,
}

fn record(agg: &mut MinuteAggregator<Ohlc>, symbol: &str, price: f64, ts: u64) {
    let fresh = Ohlc { open: price, high: price, low: price, close: price };
    agg.record_trade(symbol, ts, fresh, move |b: Ohlc| Ohlc {
        open: b.open,
        high: if price > b.high { price } else { b.high },
        low: if price < b.low { price } else { b.low },
        close: price,
    });
}

#[test]
fn trades_of_one_minute_share_a_bucket() {
    let mut agg = MinuteAggregator::new();
    record(&mut agg, "AAPL", 10.0, 60_000);
    record(&mut agg, "AAPL", 12.0, 60_500);
    record(&mut agg, "AAPL", 9.0, 119_999);
    record(&mut agg, "MSFT", 1.0, 60_001);
    assert_eq!(agg.trade_count("AAPL", 1), Some(3));
    assert_eq!(agg.trade_count("MSFT", 1), Some(1));
    assert_eq!(agg.trade_count("AAPL", 2), None);
    let done = agg.drain_completed(2);
    assert_eq!(done.len(), 2);
    let aapl = done.iter().find(|c| c.symbol == "AAPL").unwrap();
    assert_eq!(aapl.minute_key, 1);
    assert_eq!(aapl.trade_count, 3);
    assert_eq!(aapl.bucket, Ohlc { open: 10.0, high: 12.0, low: 9.0, close: 9.0 });
}

#[test]
fn drain_keeps_current_and_later_minutes() {
    let mut agg = MinuteAggregator::new();
    record(&mut agg, "X", 1.0, 0);
    record(&mut agg, "X", 2.0, 60_000);
    record(&mut agg, "X", 3.0, 120_000);
    let first = agg.drain_completed(1);
    assert_eq!(first.len(), 1);
    assert_eq!(first[0].minute_key, 0);
    // Draining again at the same minute hands out nothing more.
    assert!(agg.drain_completed(1).is_empty());
    let rest = agg.drain_completed(10);
    let mut keys: Vec<u64> = rest.iter().map(|c| c.minute_key).collect();
    keys.sort();
    assert_eq!(keys, vec![1, 2]);
    assert!(agg.drain_completed(u64::MAX).is_empty());
}

#[test]
fn stream_decisions() {
    assert!(matches!(next_action(StreamEvent::Text), StreamAction::Handle));
    assert!(matches!(next_action(StreamEvent::Other), StreamAction::Ignore));
    assert!(matches!(next_action(StreamEvent::Interrupt), StreamAction::Shutdown));
    match next_action(StreamEvent::Close) {
        StreamAction::Disconnected(m) => assert_eq!(m, "connection closed by server"),
        _ => panic!("expected Disconnected"),
    }
    match next_action(StreamEvent::End) {
        StreamAction::Disconnected(m) => assert_eq!(m, "connection closed by server"),
        _ => panic!("expected Disconnected"),
    }
    match next_action(StreamEvent::Failure("reset".to_string())) {
        StreamAction::Disconnected(m) => assert_eq!(m, "reset"),
        _ => panic!("expected Disconnected"),
    }
    assert!(matches!(next_action(StreamEvent::Tick(125_000)), StreamAction::Drain(2)));
}
