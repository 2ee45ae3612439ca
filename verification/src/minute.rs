//! Aggregation of live trades into per-symbol, per-minute buckets.
//!
//! The aggregator keys each bucket by the symbol and the minute of the
//! trade (`timestamp_ms / 60_000`), counts the trades of every bucket and
//! hands the completed minutes out when a later minute has begun. What a
//! bucket holds besides its count (open, high, low, close and volume
//! prices, which are floats) is a type parameter: the caller supplies the
//! first value of a bucket and the function that folds a trade into it.

use vstd::prelude::*;
use vstd::string::*;
use crate::text::str_eq;

verus! {

broadcast use vstd::string::group_string_axioms;

/// A bucket of the aggregator.
pub struct MinuteEntry<B> {
    pub symbol: String,
    pub minute_key: u64,
    pub trade_count: u32,
    pub bucket: B,
}

/// A completed minute aggregation ready for output.
pub struct CompletedMinute<B> {
    pub symbol: String,
    pub minute_key: u64,
    pub trade_count: u32,
    pub bucket: B,
}

/// Aggregates trades into per-symbol, per-minute buckets.
pub struct MinuteAggregator<B> {
    entries: Vec<MinuteEntry<B>>,
}

/// The key of a bucket: its symbol and its minute.
pub open spec fn entry_key<B>(e: MinuteEntry<B>) -> (Seq<char>, u64) {
    (e.symbol@, e.minute_key)
}

/// No two buckets share a key.
pub open spec fn distinct_keys<B>(s: Seq<MinuteEntry<B>>) -> bool {
    forall|i: int, j: int| 0 <= i < s.len() && 0 <= j < s.len() && i != j ==> entry_key(s[i]) != entry_key(s[j])
}

/// The buckets as a map from key to trade count and bucket value.
pub open spec fn entries_map<B>(s: Seq<MinuteEntry<B>>) -> Map<(Seq<char>, u64), (u32, B)> {
    Map::new(
        |k: (Seq<char>, u64)| exists|i: int| 0 <= i < s.len() && entry_key(s[i]) == k,
        |k: (Seq<char>, u64)| {
            let i = choose|i: int| 0 <= i < s.len() && entry_key(s[i]) == k;
            (s[i].trade_count, s[i].bucket)
        },
    )
}

proof fn lemma_entries_map_at<B>(s: Seq<MinuteEntry<B>>, i: int)
    requires
        distinct_keys(s),
        0 <= i < s.len(),
    ensures
        entries_map(s).contains_key(entry_key(s[i])),
        entries_map(s)[entry_key(s[i])] == (s[i].trade_count, s[i].bucket),
{
    let k = entry_key(s[i]);
    assert(exists|j: int| 0 <= j < s.len() && entry_key(s[j]) == k);
    let j = choose|j: int| 0 <= j < s.len() && entry_key(s[j]) == k;
    assert(j == i);
}

proof fn lemma_entries_map_update<B>(s: Seq<MinuteEntry<B>>, i: int, e: MinuteEntry<B>)
    requires
        distinct_keys(s),
        0 <= i < s.len(),
        entry_key(e) == entry_key(s[i]),
    ensures
        distinct_keys(s.update(i, e)),
        entries_map(s.update(i, e)) == entries_map(s).insert(entry_key(e), (e.trade_count, e.bucket)),
{
    let t = s.update(i, e);
    assert(distinct_keys(t));
    let m = entries_map(s).insert(entry_key(e), (e.trade_count, e.bucket));
    assert forall|k: (Seq<char>, u64)| #[trigger] entries_map(t).contains_key(k) == m.contains_key(k) by {
        if entries_map(t).contains_key(k) {
            let j = choose|j: int| 0 <= j < t.len() && entry_key(t[j]) == k;
            if j != i {
                lemma_entries_map_at(s, j);
            }
        }
        if m.contains_key(k) && k != entry_key(e) {
            let j = choose|j: int| 0 <= j < s.len() && entry_key(s[j]) == k;
            assert(entry_key(t[j]) == k);
        }
        if k == entry_key(e) {
            assert(entry_key(t[i]) == k);
        }
    }
    assert forall|k: (Seq<char>, u64)| entries_map(t).contains_key(k) implies #[trigger] entries_map(t)[k] == m[k] by {
        let j = choose|j: int| 0 <= j < t.len() && entry_key(t[j]) == k;
        lemma_entries_map_at(t, j);
        if j != i {
            lemma_entries_map_at(s, j);
        }
    }
    assert(entries_map(t) =~= m);
}

proof fn lemma_entries_map_push<B>(s: Seq<MinuteEntry<B>>, e: MinuteEntry<B>)
    requires
        distinct_keys(s),
        !entries_map(s).contains_key(entry_key(e)),
    ensures
        distinct_keys(s.push(e)),
        entries_map(s.push(e)) == entries_map(s).insert(entry_key(e), (e.trade_count, e.bucket)),
{
    let t = s.push(e);
    assert forall|j: int| 0 <= j < s.len() implies entry_key(s[j]) != entry_key(e) by {
        if entry_key(s[j]) == entry_key(e) {
            assert(entries_map(s).contains_key(entry_key(e)));
        }
    }
    assert(distinct_keys(t));
    let m = entries_map(s).insert(entry_key(e), (e.trade_count, e.bucket));
    assert forall|k: (Seq<char>, u64)| #[trigger] entries_map(t).contains_key(k) == m.contains_key(k) by {
        if entries_map(t).contains_key(k) {
            let j = choose|j: int| 0 <= j < t.len() && entry_key(t[j]) == k;
            if j < s.len() {
                assert(entry_key(s[j]) == k);
            }
        }
        if m.contains_key(k) && k != entry_key(e) {
            let j = choose|j: int| 0 <= j < s.len() && entry_key(s[j]) == k;
            assert(entry_key(t[j]) == k);
        }
        if k == entry_key(e) {
            assert(entry_key(t[s.len() as int]) == k);
        }
    }
    assert forall|k: (Seq<char>, u64)| entries_map(t).contains_key(k) implies #[trigger] entries_map(t)[k] == m[k] by {
        let j = choose|j: int| 0 <= j < t.len() && entry_key(t[j]) == k;
        lemma_entries_map_at(t, j);
        if j < s.len() {
            assert(t[j] == s[j]);
            lemma_entries_map_at(s, j);
        }
    }
    assert(entries_map(t) =~= m);
}

/// The key of a completed minute.
pub open spec fn completed_key<B>(c: CompletedMinute<B>) -> (Seq<char>, u64) {
    (c.symbol@, c.minute_key)
}

/// The completed minute that carries the contents of bucket `e`.
pub open spec fn completion<B>(e: MinuteEntry<B>) -> CompletedMinute<B> {
    CompletedMinute { symbol: e.symbol, minute_key: e.minute_key, trade_count: e.trade_count, bucket: e.bucket }
}

/// The buckets of `orig` from index `n` on whose minute is not before
/// `cur`, last index first.
spec fn kept_from<B>(orig: Seq<MinuteEntry<B>>, n: int, cur: u64) -> Seq<MinuteEntry<B>>
    decreases orig.len() - n,
{
    if n >= orig.len() || n < 0 {
        Seq::empty()
    } else if orig[n].minute_key >= cur {
        kept_from(orig, n + 1, cur).push(orig[n])
    } else {
        kept_from(orig, n + 1, cur)
    }
}

/// The completions of the buckets of `orig` from index `n` on whose
/// minute is before `cur`, last index first.
spec fn done_from<B>(orig: Seq<MinuteEntry<B>>, n: int, cur: u64) -> Seq<CompletedMinute<B>>
    decreases orig.len() - n,
{
    if n >= orig.len() || n < 0 {
        Seq::empty()
    } else if orig[n].minute_key < cur {
        done_from(orig, n + 1, cur).push(completion(orig[n]))
    } else {
        done_from(orig, n + 1, cur)
    }
}

proof fn lemma_kept_from<B>(orig: Seq<MinuteEntry<B>>, n: int, cur: u64)
    requires
        distinct_keys(orig),
        0 <= n <= orig.len(),
    ensures
        distinct_keys(kept_from(orig, n, cur)),
        forall|x: int| 0 <= x < kept_from(orig, n, cur).len() ==> exists|j: int|
            n <= j < orig.len() && #[trigger] kept_from(orig, n, cur)[x] == orig[j] && orig[j].minute_key >= cur,
        forall|j: int| n <= j < orig.len() && orig[j].minute_key >= cur ==> exists|x: int|
            0 <= x < kept_from(orig, n, cur).len() && kept_from(orig, n, cur)[x] == #[trigger] orig[j],
    decreases orig.len() - n,
{
    if n < orig.len() {
        lemma_kept_from(orig, n + 1, cur);
        let tail = kept_from(orig, n + 1, cur);
        let all = kept_from(orig, n, cur);
        if orig[n].minute_key >= cur {
            assert(all == tail.push(orig[n]));
            assert forall|x: int| 0 <= x < tail.len() implies entry_key(tail[x]) != entry_key(orig[n]) by {
                let j = choose|j: int| n + 1 <= j < orig.len() && tail[x] == orig[j] && orig[j].minute_key >= cur;
            }
            assert forall|x: int| 0 <= x < all.len() implies exists|j: int|
                n <= j < orig.len() && #[trigger] all[x] == orig[j] && orig[j].minute_key >= cur by {
                if x < tail.len() {
                    assert(all[x] == tail[x]);
                    let j = choose|j: int| n + 1 <= j < orig.len() && tail[x] == orig[j] && orig[j].minute_key >= cur;
                } else {
                    assert(all[x] == orig[n]);
                }
            }
            assert forall|j: int| n <= j < orig.len() && orig[j].minute_key >= cur implies exists|x: int|
                0 <= x < all.len() && all[x] == #[trigger] orig[j] by {
                if j == n {
                    assert(all[tail.len() as int] == orig[j]);
                } else {
                    let x = choose|x: int| 0 <= x < tail.len() && tail[x] == orig[j];
                    assert(all[x] == orig[j]);
                }
            }
        } else {
            assert(all == tail);
        }
    }
}

proof fn lemma_done_from<B>(orig: Seq<MinuteEntry<B>>, n: int, cur: u64)
    requires
        distinct_keys(orig),
        0 <= n <= orig.len(),
    ensures
        forall|x: int, y: int| 0 <= x < done_from(orig, n, cur).len() && 0 <= y < done_from(orig, n, cur).len()
            && x != y ==> completed_key(done_from(orig, n, cur)[x]) != completed_key(done_from(orig, n, cur)[y]),
        forall|x: int| 0 <= x < done_from(orig, n, cur).len() ==> exists|j: int|
            n <= j < orig.len() && #[trigger] done_from(orig, n, cur)[x] == completion(orig[j])
                && orig[j].minute_key < cur,
        forall|j: int| n <= j < orig.len() && orig[j].minute_key < cur ==> exists|x: int|
            0 <= x < done_from(orig, n, cur).len() && done_from(orig, n, cur)[x] == completion(#[trigger] orig[j]),
    decreases orig.len() - n,
{
    if n < orig.len() {
        lemma_done_from(orig, n + 1, cur);
        let tail = done_from(orig, n + 1, cur);
        let all = done_from(orig, n, cur);
        if orig[n].minute_key < cur {
            assert(all == tail.push(completion(orig[n])));
            assert forall|x: int| 0 <= x < tail.len() implies completed_key(tail[x]) != entry_key(orig[n]) by {
                let j = choose|j: int| n + 1 <= j < orig.len() && tail[x] == completion(orig[j])
                    && orig[j].minute_key < cur;
                assert(entry_key(orig[j]) != entry_key(orig[n]));
            }
            assert forall|x: int| 0 <= x < all.len() implies exists|j: int|
                n <= j < orig.len() && #[trigger] all[x] == completion(orig[j]) && orig[j].minute_key < cur by {
                if x < tail.len() {
                    assert(all[x] == tail[x]);
                    let j = choose|j: int| n + 1 <= j < orig.len() && tail[x] == completion(orig[j])
                        && orig[j].minute_key < cur;
                } else {
                    assert(all[x] == completion(orig[n]));
                }
            }
            assert forall|j: int| n <= j < orig.len() && orig[j].minute_key < cur implies exists|x: int|
                0 <= x < all.len() && all[x] == completion(#[trigger] orig[j]) by {
                if j == n {
                    assert(all[tail.len() as int] == completion(orig[j]));
                } else {
                    let x = choose|x: int| 0 <= x < tail.len() && tail[x] == completion(orig[j]);
                    assert(all[x] == completion(orig[j]));
                }
            }
        } else {
            assert(all == tail);
        }
    }
}

/// The buckets that a drain at `current` leaves in place: those of
/// minute `current` or later.
pub open spec fn kept_minutes<B>(m: Map<(Seq<char>, u64), (u32, B)>, current: u64) -> Map<
    (Seq<char>, u64),
    (u32, B),
> {
    m.restrict(m.dom().filter(|k: (Seq<char>, u64)| k.1 >= current))
}

/// The bucket that a trade of `symbol` at `timestamp_ms` goes to.
pub open spec fn trade_key(symbol: Seq<char>, timestamp_ms: u64) -> (Seq<char>, u64) {
    (symbol, (timestamp_ms / 60_000) as u64)
}

/// The number of trades counted in the bucket `k` (0 where there is none).
pub open spec fn trades_in<B>(m: Map<(Seq<char>, u64), (u32, B)>, k: (Seq<char>, u64)) -> int {
    if m.contains_key(k) { m[k].0 as int } else { 0 }
}

/// `after` is `before` with one more trade counted in bucket `k`, which
/// exists afterwards, and every other bucket untouched.
pub open spec fn one_more_trade<B>(
    before: Map<(Seq<char>, u64), (u32, B)>,
    after: Map<(Seq<char>, u64), (u32, B)>,
    k: (Seq<char>, u64),
) -> bool {
    &&& after.dom() == before.dom().insert(k)
    &&& forall|k2: (Seq<char>, u64)| k2 != k && before.contains_key(k2) ==> #[trigger] after[k2] == before[k2]
    &&& after[k].0 == trades_in(before, k) + 1
}

/// How many of `keys` are `k`.
pub open spec fn occurrences(keys: Seq<(Seq<char>, u64)>, k: (Seq<char>, u64)) -> int
    decreases keys.len(),
{
    if keys.len() == 0 {
        0
    } else {
        occurrences(keys.drop_last(), k) + if keys.last() == k { 1int } else { 0int }
    }
}

/// Over any run of recorded trades (`views[i + 1]` is the aggregator after
/// the trade of bucket `keys[i]` was recorded into `views[i]`), every
/// bucket's count grows by exactly the number of those trades that went
/// to it. Started from a new aggregator, or from a drain that took the
/// bucket out (see `law_bucket_open_until_later_minute`), a bucket counts
/// exactly the trades of its symbol and minute recorded since.
pub proof fn law_trade_count_is_number_of_trades<B>(
    views: Seq<Map<(Seq<char>, u64), (u32, B)>>,
    keys: Seq<(Seq<char>, u64)>,
    k: (Seq<char>, u64),
)
    requires
        views.len() == keys.len() + 1,
        forall|i: int| 0 <= i < keys.len() ==> one_more_trade(#[trigger] views[i], views[i + 1], keys[i]),
    ensures
        trades_in(views.last(), k) == trades_in(views[0], k) + occurrences(keys, k),
    decreases keys.len(),
{
    if keys.len() > 0 {
        let n = keys.len() as int;
        let front = views.drop_last();
        assert forall|i: int| 0 <= i < keys.drop_last().len() implies one_more_trade(
            #[trigger] front[i],
            front[i + 1],
            keys.drop_last()[i],
        ) by {
            assert(one_more_trade(views[i], views[i + 1], keys[i]));
        }
        law_trade_count_is_number_of_trades(front, keys.drop_last(), k);
        assert(one_more_trade(views[n - 1], views[n], keys[n - 1]));
        let before = views[n - 1];
        let after = views[n];
        if keys[n - 1] != k {
            if before.contains_key(k) {
                assert(after[k] == before[k]);
            }
            assert(after.contains_key(k) == before.contains_key(k));
        }
    }
}

/// Every bucket holds at least one trade: true of a new aggregator, kept by
/// recording a trade and by draining.
pub open spec fn buckets_hold_trades<B>(m: Map<(Seq<char>, u64), (u32, B)>) -> bool {
    forall|k: (Seq<char>, u64)| #[trigger] m.contains_key(k) ==> m[k].0 >= 1
}

pub proof fn law_buckets_hold_trades<B>(
    before: Map<(Seq<char>, u64), (u32, B)>,
    after: Map<(Seq<char>, u64), (u32, B)>,
    k: (Seq<char>, u64),
    current: u64,
)
    ensures
        buckets_hold_trades(Map::<(Seq<char>, u64), (u32, B)>::empty()),
        buckets_hold_trades(before) && one_more_trade(before, after, k) ==> buckets_hold_trades(after),
        buckets_hold_trades(before) ==> buckets_hold_trades(kept_minutes(before, current)),
{
    if buckets_hold_trades(before) && one_more_trade(before, after, k) {
        assert forall|k2: (Seq<char>, u64)| #[trigger] after.contains_key(k2) implies after[k2].0 >= 1 by {
            if k2 != k {
                assert(after[k2] == before[k2]);
            }
        }
    }
}

/// A bucket stays open through every drain at its own minute or an earlier
/// one, and the first drain at a later minute takes it out.
pub proof fn law_bucket_open_until_later_minute<B>(
    m: Map<(Seq<char>, u64), (u32, B)>,
    k: (Seq<char>, u64),
    current: u64,
)
    requires
        m.contains_key(k),
    ensures
        kept_minutes(m, current).contains_key(k) <==> k.1 >= current,
        kept_minutes(m, current).contains_key(k) ==> kept_minutes(m, current)[k] == m[k],
        k.1 < current ==> trades_in(kept_minutes(m, current), k) == 0,
{
}

/// A drain is idempotent: draining again at the same minute keeps every
/// bucket and hands out nothing, since every kept bucket is of that minute
/// or later.
pub proof fn law_drain_idempotent<B>(m: Map<(Seq<char>, u64), (u32, B)>, current: u64)
    ensures
        kept_minutes(kept_minutes(m, current), current) == kept_minutes(m, current),
        forall|k: (Seq<char>, u64)| #[trigger] kept_minutes(m, current).contains_key(k) ==> k.1 >= current,
{
    assert(kept_minutes(kept_minutes(m, current), current) =~= kept_minutes(m, current));
}

impl<B> View for MinuteAggregator<B> {
    type V = Map<(Seq<char>, u64), (u32, B)>;

    closed spec fn view(&self) -> Self::V {
        entries_map(self.entries@)
    }
}

impl<B> MinuteAggregator<B> {
    /// The aggregator's internal consistency: no key occurs twice.
    pub closed spec fn wf(&self) -> bool {
        distinct_keys(self.entries@)
    }

    pub fn new() -> (res: Self)
        ensures
            res.wf(),
            res@ == Map::<(Seq<char>, u64), (u32, B)>::empty(),
    {
        let res = MinuteAggregator { entries: Vec::new() };
        proof {
            assert(res@ =~= Map::<(Seq<char>, u64), (u32, B)>::empty());
        }
        res
    }

    fn find(&self, symbol: &str, minute_key: u64) -> (res: Option<usize>)
        requires
            self.wf(),
        ensures
            match res {
                Some(i) => i < self.entries@.len() && entry_key(self.entries@[i as int]) == (symbol@, minute_key),
                None => !self@.contains_key((symbol@, minute_key)),
            },
    {
        let mut i: usize = 0;
        while i < self.entries.len()
            invariant
                i <= self.entries@.len(),
                forall|j: int| 0 <= j < i ==> entry_key(self.entries@[j]) != (symbol@, minute_key),
            decreases self.entries@.len() - i,
        {
            if self.entries[i].minute_key == minute_key && str_eq(self.entries[i].symbol.as_str(), symbol) {
                return Some(i);
            }
            i = i + 1;
        }
        None
    }

    /// Records a trade of `symbol` at `timestamp_ms` into the bucket of its
    /// minute (`timestamp_ms / 60_000`): a new bucket starts from `fresh`,
    /// and the bucket's value becomes `update` of its previous value while
    /// its trade count goes up by one.
    pub fn record_trade<F: Fn(B) -> B>(&mut self, symbol: &str, timestamp_ms: u64, fresh: B, update: F)
        requires
            old(self).wf(),
            forall|b: B| call_requires(update, (b,)),
            trades_in(old(self)@, trade_key(symbol@, timestamp_ms)) < u32::MAX,
        ensures
            final(self).wf(),
            ({
                let k = trade_key(symbol@, timestamp_ms);
                let prev = if old(self)@.contains_key(k) { old(self)@[k].1 } else { fresh };
                &&& one_more_trade(old(self)@, final(self)@, k)
                &&& call_ensures(update, (prev,), final(self)@[k].1)
            }),
    {
        let minute_key = timestamp_ms / 60_000;
        match self.find(symbol, minute_key) {
            Some(i) => {
                proof {
                    lemma_entries_map_at(self.entries@, i as int);
                }
                let ghost before = self.entries@;
                let entry = self.entries.remove(i);
                let bucket = update(entry.bucket);
                let updated = MinuteEntry {
                    symbol: entry.symbol,
                    minute_key,
                    trade_count: entry.trade_count + 1,
                    bucket,
                };
                self.entries.insert(i, updated);
                proof {
                    assert(self.entries@ =~= before.update(i as int, updated));
                    lemma_entries_map_update(before, i as int, updated);
                }
            },
            None => {
                let bucket = update(fresh);
                let created = MinuteEntry { symbol: symbol.to_string(), minute_key, trade_count: 1, bucket };
                proof {
                    lemma_entries_map_push(self.entries@, created);
                }
                self.entries.push(created);
            },
        }
    }

    /// Removes and returns every bucket of a minute strictly before
    /// `current_minute_key`; the later buckets stay.
    pub fn drain_completed(&mut self, current_minute_key: u64) -> (res: Vec<CompletedMinute<B>>)
        requires
            old(self).wf(),
        ensures
            final(self).wf(),
            final(self)@ == kept_minutes(old(self)@, current_minute_key),
            forall|i: int, j: int| 0 <= i < res@.len() && 0 <= j < res@.len() && i != j
                ==> completed_key(res@[i]) != completed_key(res@[j]),
            forall|i: int| 0 <= i < res@.len() ==> {
                let k = #[trigger] completed_key(res@[i]);
                &&& old(self)@.contains_key(k)
                &&& k.1 < current_minute_key
                &&& old(self)@[k] == (res@[i].trade_count, res@[i].bucket)
            },
            forall|k: (Seq<char>, u64)| old(self)@.contains_key(k) && k.1 < current_minute_key
                ==> exists|i: int| 0 <= i < res@.len() && #[trigger] completed_key(res@[i]) == k,
    {
        let ghost orig = self.entries@;
        let mut rest: Vec<MinuteEntry<B>> = Vec::new();
        std::mem::swap(&mut rest, &mut self.entries);
        let mut completed: Vec<CompletedMinute<B>> = Vec::new();
        while rest.len() > 0
            invariant
                rest@ == orig.take(rest@.len() as int),
                rest@.len() <= orig.len(),
                self.entries@ == kept_from(orig, rest@.len() as int, current_minute_key),
                completed@ == done_from(orig, rest@.len() as int, current_minute_key),
            decreases rest@.len(),
        {
            let ghost r = (rest@.len() - 1) as int;
            let entry = rest.pop().unwrap();
            proof {
                assert(entry == orig[r]);
                assert(rest@ =~= orig.take(r));
            }
            if entry.minute_key < current_minute_key {
                let done = CompletedMinute {
                    symbol: entry.symbol,
                    minute_key: entry.minute_key,
                    trade_count: entry.trade_count,
                    bucket: entry.bucket,
                };
                completed.push(done);
            } else {
                self.entries.push(entry);
            }
        }
        proof {
            lemma_kept_from(orig, 0, current_minute_key);
            lemma_done_from(orig, 0, current_minute_key);
            let old_map = entries_map(orig);
            let kept = kept_minutes(old_map, current_minute_key);
            let new_map = entries_map(self.entries@);
            assert forall|k: (Seq<char>, u64)| #[trigger] new_map.contains_key(k) == kept.contains_key(k) by {
                if new_map.contains_key(k) {
                    let x = choose|x: int| 0 <= x < self.entries@.len() && entry_key(self.entries@[x]) == k;
                    let j = choose|j: int| 0 <= j < orig.len() && self.entries@[x] == orig[j]
                        && orig[j].minute_key >= current_minute_key;
                    lemma_entries_map_at(orig, j);
                }
                if kept.contains_key(k) {
                    let j = choose|j: int| 0 <= j < orig.len() && entry_key(orig[j]) == k;
                    let x = choose|x: int| 0 <= x < self.entries@.len() && self.entries@[x] == orig[j];
                    assert(entry_key(self.entries@[x]) == k);
                }
            }
            assert forall|k: (Seq<char>, u64)| new_map.contains_key(k) implies #[trigger] new_map[k] == kept[k] by {
                let x = choose|x: int| 0 <= x < self.entries@.len() && entry_key(self.entries@[x]) == k;
                let j = choose|j: int| 0 <= j < orig.len() && self.entries@[x] == orig[j]
                    && orig[j].minute_key >= current_minute_key;
                lemma_entries_map_at(orig, j);
                lemma_entries_map_at(self.entries@, x);
            }
            assert(new_map =~= kept);
            assert forall|i: int| 0 <= i < completed@.len() implies {
                let k = #[trigger] completed_key(completed@[i]);
                &&& old_map.contains_key(k)
                &&& k.1 < current_minute_key
                &&& old_map[k] == (completed@[i].trade_count, completed@[i].bucket)
            } by {
                let j = choose|j: int| 0 <= j < orig.len() && completed@[i] == completion(orig[j])
                    && orig[j].minute_key < current_minute_key;
                lemma_entries_map_at(orig, j);
            }
            assert forall|k: (Seq<char>, u64)| old_map.contains_key(k) && k.1 < current_minute_key
                implies exists|i: int| 0 <= i < completed@.len() && #[trigger] completed_key(completed@[i]) == k by {
                let j = choose|j: int| 0 <= j < orig.len() && entry_key(orig[j]) == k;
                let x = choose|x: int| 0 <= x < completed@.len() && completed@[x] == completion(orig[j]);
                assert(completed_key(completed@[x]) == k);
            }
        }
        completed
    }

    /// The number of trades recorded in the bucket of `symbol` and
    /// `minute_key`, if there is one.
    pub fn trade_count(&self, symbol: &str, minute_key: u64) -> (res: Option<u32>)
        requires
            self.wf(),
        ensures
            res == (if self@.contains_key((symbol@, minute_key)) {
                Some(self@[(symbol@, minute_key)].0)
            } else {
                None::<u32>
            }),
    {
        match self.find(symbol, minute_key) {
            Some(i) => {
                proof {
                    lemma_entries_map_at(self.entries@, i as int);
                }
                Some(self.entries[i].trade_count)
            },
            None => None,
        }
    }
}

} // verus!
