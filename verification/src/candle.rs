//! Aggregation of live price ticks into one open candle per ticker.
//!
//! A tick either extends the open candle of its ticker or, once it comes
//! strictly after that candle's end, closes the candle and hands it out;
//! the closing tick itself starts nothing. The first tick of a ticker opens
//! a candle that begins at the tick and ends one timeframe later. What a
//! candle holds besides its span (open, high, low and close prices, which
//! are floats) is a type parameter: the caller supplies the value of a
//! fresh candle and the function that folds a tick's price into it.

use vstd::prelude::*;
use vstd::string::*;
use crate::market::{Timeframe, timeframe_secs};
use crate::time::{Instant, is_after, shifted};
use crate::text::str_eq;

verus! {

broadcast use vstd::string::group_string_axioms;

/// A candle: the span it covers and its prices.
pub struct Candle<P> {
    pub ticker: String,
    pub start: Instant,
    pub end: Instant,
    pub prices: P,
}

/// The open candles, one per ticker at most.
pub struct CandleAggregator<P> {
    timeframe: Timeframe,
    candles: Vec<Candle<P>>,
}

/// No ticker has two open candles.
pub open spec fn distinct_tickers<P>(s: Seq<Candle<P>>) -> bool {
    forall|i: int, j: int| 0 <= i < s.len() && 0 <= j < s.len() && i != j ==> s[i].ticker@ != s[j].ticker@
}

/// The open candles as a map from ticker to start, end and prices.
pub open spec fn candles_map<P>(s: Seq<Candle<P>>) -> Map<Seq<char>, (Instant, Instant, P)> {
    Map::new(
        |k: Seq<char>| exists|i: int| 0 <= i < s.len() && s[i].ticker@ == k,
        |k: Seq<char>| {
            let i = choose|i: int| 0 <= i < s.len() && s[i].ticker@ == k;
            (s[i].start, s[i].end, s[i].prices)
        },
    )
}

proof fn lemma_candles_map_at<P>(s: Seq<Candle<P>>, i: int)
    requires
        distinct_tickers(s),
        0 <= i < s.len(),
    ensures
        candles_map(s).contains_key(s[i].ticker@),
        candles_map(s)[s[i].ticker@] == (s[i].start, s[i].end, s[i].prices),
{
    let k = s[i].ticker@;
    assert(exists|j: int| 0 <= j < s.len() && s[j].ticker@ == k);
    let j = choose|j: int| 0 <= j < s.len() && s[j].ticker@ == k;
    assert(j == i);
}

proof fn lemma_candles_map_update<P>(s: Seq<Candle<P>>, i: int, c: Candle<P>)
    requires
        distinct_tickers(s),
        0 <= i < s.len(),
        c.ticker@ == s[i].ticker@,
    ensures
        distinct_tickers(s.update(i, c)),
        candles_map(s.update(i, c)) == candles_map(s).insert(c.ticker@, (c.start, c.end, c.prices)),
{
    let t = s.update(i, c);
    assert(distinct_tickers(t));
    let m = candles_map(s).insert(c.ticker@, (c.start, c.end, c.prices));
    assert forall|k: Seq<char>| #[trigger] candles_map(t).contains_key(k) == m.contains_key(k) by {
        if candles_map(t).contains_key(k) {
            let j = choose|j: int| 0 <= j < t.len() && t[j].ticker@ == k;
            if j != i {
                lemma_candles_map_at(s, j);
            }
        }
        if m.contains_key(k) && k != c.ticker@ {
            let j = choose|j: int| 0 <= j < s.len() && s[j].ticker@ == k;
            assert(t[j].ticker@ == k);
        }
        if k == c.ticker@ {
            assert(t[i].ticker@ == k);
        }
    }
    assert forall|k: Seq<char>| candles_map(t).contains_key(k) implies #[trigger] candles_map(t)[k] == m[k] by {
        let j = choose|j: int| 0 <= j < t.len() && t[j].ticker@ == k;
        lemma_candles_map_at(t, j);
        if j != i {
            lemma_candles_map_at(s, j);
        }
    }
    assert(candles_map(t) =~= m);
}

proof fn lemma_candles_map_push<P>(s: Seq<Candle<P>>, c: Candle<P>)
    requires
        distinct_tickers(s),
        !candles_map(s).contains_key(c.ticker@),
    ensures
        distinct_tickers(s.push(c)),
        candles_map(s.push(c)) == candles_map(s).insert(c.ticker@, (c.start, c.end, c.prices)),
{
    let t = s.push(c);
    assert forall|j: int| 0 <= j < s.len() implies s[j].ticker@ != c.ticker@ by {
        if s[j].ticker@ == c.ticker@ {
            assert(candles_map(s).contains_key(c.ticker@));
        }
    }
    assert(distinct_tickers(t));
    let m = candles_map(s).insert(c.ticker@, (c.start, c.end, c.prices));
    assert forall|k: Seq<char>| #[trigger] candles_map(t).contains_key(k) == m.contains_key(k) by {
        if candles_map(t).contains_key(k) {
            let j = choose|j: int| 0 <= j < t.len() && t[j].ticker@ == k;
            if j < s.len() {
                assert(s[j].ticker@ == k);
            }
        }
        if m.contains_key(k) && k != c.ticker@ {
            let j = choose|j: int| 0 <= j < s.len() && s[j].ticker@ == k;
            assert(t[j].ticker@ == k);
        }
        if k == c.ticker@ {
            assert(t[s.len() as int].ticker@ == k);
        }
    }
    assert forall|k: Seq<char>| candles_map(t).contains_key(k) implies #[trigger] candles_map(t)[k] == m[k] by {
        let j = choose|j: int| 0 <= j < t.len() && t[j].ticker@ == k;
        lemma_candles_map_at(t, j);
        if j < s.len() {
            assert(t[j] == s[j]);
            lemma_candles_map_at(s, j);
        }
    }
    assert(candles_map(t) =~= m);
}

proof fn lemma_candles_map_remove<P>(s: Seq<Candle<P>>, i: int)
    requires
        distinct_tickers(s),
        0 <= i < s.len(),
    ensures
        distinct_tickers(s.remove(i)),
        candles_map(s.remove(i)) == candles_map(s).remove(s[i].ticker@),
{
    let t = s.remove(i);
    let gone = s[i].ticker@;
    assert forall|a: int, b: int| 0 <= a < t.len() && 0 <= b < t.len() && a != b implies t[a].ticker@
        != t[b].ticker@ by {
        let sa = if a < i { a } else { a + 1 };
        let sb = if b < i { b } else { b + 1 };
        assert(t[a] == s[sa]);
        assert(t[b] == s[sb]);
    }
    let m = candles_map(s).remove(gone);
    assert forall|k: Seq<char>| #[trigger] candles_map(t).contains_key(k) == m.contains_key(k) by {
        if candles_map(t).contains_key(k) {
            let j = choose|j: int| 0 <= j < t.len() && t[j].ticker@ == k;
            let sj = if j < i { j } else { j + 1 };
            assert(t[j] == s[sj]);
            assert(sj != i);
            lemma_candles_map_at(s, sj);
        }
        if m.contains_key(k) {
            let j = choose|j: int| 0 <= j < s.len() && s[j].ticker@ == k;
            assert(j != i);
            let tj = if j < i { j } else { j - 1 };
            assert(t[tj] == s[j]);
        }
    }
    assert forall|k: Seq<char>| candles_map(t).contains_key(k) implies #[trigger] candles_map(t)[k] == m[k] by {
        let j = choose|j: int| 0 <= j < t.len() && t[j].ticker@ == k;
        let sj = if j < i { j } else { j + 1 };
        assert(t[j] == s[sj]);
        lemma_candles_map_at(t, j);
        lemma_candles_map_at(s, sj);
    }
    assert(candles_map(t) =~= m);
}

/// The candle covers exactly one timeframe, with no overflow of the clock.
pub open spec fn spans<P>(c: Candle<P>, timeframe: Timeframe) -> bool {
    &&& c.start.secs + timeframe_secs(timeframe) <= i64::MAX
    &&& c.end == shifted(c.start, timeframe_secs(timeframe))
}

impl<P> View for CandleAggregator<P> {
    type V = Map<Seq<char>, (Instant, Instant, P)>;

    closed spec fn view(&self) -> Self::V {
        candles_map(self.candles@)
    }
}

/// `t` can be moved a day later without leaving the range of the clock.
pub open spec fn tick_in_range(t: Instant) -> bool {
    t.secs <= i64::MAX - 86400
}

impl<P> CandleAggregator<P> {
    /// The aggregator's internal consistency: no ticker occurs twice.
    pub closed spec fn wf(&self) -> bool {
        &&& distinct_tickers(self.candles@)
        &&& forall|i: int| 0 <= i < self.candles@.len() ==> spans(#[trigger] self.candles@[i], self.timeframe)
    }

    /// The timeframe that each candle spans.
    pub closed spec fn timeframe(&self) -> Timeframe {
        self.timeframe
    }

    pub fn new(timeframe: Timeframe) -> (res: Self)
        ensures
            res.wf(),
            res.timeframe() == timeframe,
            res@ == Map::<Seq<char>, (Instant, Instant, P)>::empty(),
    {
        let res = CandleAggregator { timeframe, candles: Vec::new() };
        proof {
            assert(res@ =~= Map::<Seq<char>, (Instant, Instant, P)>::empty());
        }
        res
    }

    /// Every open candle ends exactly one timeframe after it starts.
    pub proof fn law_open_candles_span_timeframe(&self, k: Seq<char>)
        requires
            self.wf(),
            self@.contains_key(k),
        ensures
            self@[k].1 == shifted(self@[k].0, timeframe_secs(self.timeframe())),
    {
        let i = choose|i: int| 0 <= i < self.candles@.len() && self.candles@[i].ticker@ == k;
        lemma_candles_map_at(self.candles@, i);
        assert(spans(self.candles@[i], self.timeframe));
    }

    fn find(&self, ticker: &str) -> (res: Option<usize>)
        requires
            self.wf(),
        ensures
            match res {
                Some(i) => i < self.candles@.len() && self.candles@[i as int].ticker@ == ticker@,
                None => !self@.contains_key(ticker@),
            },
    {
        let mut i: usize = 0;
        while i < self.candles.len()
            invariant
                i <= self.candles@.len(),
                forall|j: int| 0 <= j < i ==> self.candles@[j].ticker@ != ticker@,
            decreases self.candles@.len() - i,
        {
            if str_eq(self.candles[i].ticker.as_str(), ticker) {
                return Some(i);
            }
            i = i + 1;
        }
        None
    }

    /// Feeds one tick of `ticker` at `timestamp`.
    ///
    /// If the ticker's open candle ends strictly before `timestamp`, that
    /// candle is removed and returned, and the tick goes nowhere. Otherwise
    /// the tick is folded into the ticker's candle by `fold`, after opening
    /// one from `fresh` that spans `timestamp` to one timeframe later when
    /// the ticker had none; nothing is returned then.
    pub fn update<F: Fn(P) -> P>(&mut self, ticker: &str, timestamp: Instant, fresh: P, fold: F) -> (res:
        Option<Candle<P>>)
        requires
            old(self).wf(),
            tick_in_range(timestamp),
            forall|p: P| call_requires(fold, (p,)),
        ensures
            final(self).wf(),
            final(self).timeframe() == old(self).timeframe(),
            ({
                let k = ticker@;
                let present = old(self)@.contains_key(k);
                if present && is_after(timestamp, old(self)@[k].1) {
                    &&& res matches Some(c) && c.ticker@ == k && (c.start, c.end, c.prices) == old(self)@[k]
                        && c.end == shifted(c.start, timeframe_secs(old(self).timeframe()))
                    &&& final(self)@ == old(self)@.remove(k)
                } else {
                    let start = if present { old(self)@[k].0 } else { timestamp };
                    let end = if present {
                        old(self)@[k].1
                    } else {
                        shifted(timestamp, timeframe_secs(old(self).timeframe()))
                    };
                    let prev = if present { old(self)@[k].2 } else { fresh };
                    &&& res is None
                    &&& final(self)@.dom() == old(self)@.dom().insert(k)
                    &&& forall|k2: Seq<char>| k2 != k && old(self)@.contains_key(k2)
                        ==> #[trigger] final(self)@[k2] == old(self)@[k2]
                    &&& final(self)@[k].0 == start
                    &&& final(self)@[k].1 == end
                    &&& call_ensures(fold, (prev,), final(self)@[k].2)
                }
            }),
    {
        match self.find(ticker) {
            Some(i) => {
                proof {
                    lemma_candles_map_at(self.candles@, i as int);
                }
                let ghost before = self.candles@;
                let end = self.candles[i].end;
                if timestamp.secs > end.secs || (timestamp.secs == end.secs && timestamp.nanos > end.nanos) {
                    let closed = self.candles.remove(i);
                    proof {
                        lemma_candles_map_remove(before, i as int);
                        assert(spans(before[i as int], self.timeframe));
                        assert forall|j: int| 0 <= j < self.candles@.len() implies spans(
                            #[trigger] self.candles@[j],
                            self.timeframe,
                        ) by {
                            if j < i {
                                assert(self.candles@[j] == before[j]);
                            } else {
                                assert(self.candles@[j] == before[j + 1]);
                            }
                        }
                    }
                    Some(closed)
                } else {
                    let current = self.candles.remove(i);
                    let prices = fold(current.prices);
                    let updated = Candle { ticker: current.ticker, start: current.start, end: current.end, prices };
                    self.candles.insert(i, updated);
                    proof {
                        assert(self.candles@ =~= before.update(i as int, updated));
                        lemma_candles_map_update(before, i as int, updated);
                        assert(spans(before[i as int], self.timeframe));
                        assert forall|j: int| 0 <= j < self.candles@.len() implies spans(
                            #[trigger] self.candles@[j],
                            self.timeframe,
                        ) by {
                            if j != i {
                                assert(self.candles@[j] == before[j]);
                            }
                        }
                    }
                    None
                }
            },
            None => {
                let secs = self.timeframe.secs();
                let end = Instant { secs: timestamp.secs + secs, nanos: timestamp.nanos };
                let prices = fold(fresh);
                let created = Candle { ticker: ticker.to_string(), start: timestamp, end, prices };
                proof {
                    lemma_candles_map_push(self.candles@, created);
                }
                let ghost before = self.candles@;
                self.candles.push(created);
                proof {
                    assert forall|j: int| 0 <= j < self.candles@.len() implies spans(
                        #[trigger] self.candles@[j],
                        self.timeframe,
                    ) by {
                        if j < before.len() {
                            assert(self.candles@[j] == before[j]);
                        }
                    }
                }
                None
            },
        }
    }
}

} // verus!
