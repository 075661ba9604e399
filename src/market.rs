//! The market-data store: bounded per-asset history at several resolutions.
//!
//! Each tier is one combined sequence for all assets, capped per asset:
//! appending an entry whose asset is over its cap evicts the oldest entry of
//! that same asset, so a busy asset never pushes out a quiet one.

use vstd::prelude::*;
use crate::fixed::{SCALE, fx_div, checked_fx_div};
use crate::models::{PricePoint, Candle, reference_asset, is_reference_asset};

verus! {

/// Raw ticks kept per asset: 24 hours at a 5-second cadence.
pub const TICK_CAPACITY: usize = 17280;
/// Five-minute closing prices kept per asset: 24 hours.
pub const HISTORY_CAPACITY: usize = 288;
/// One-minute candles kept per asset: one hour.
pub const OHLC_1M_CAPACITY: usize = 60;
/// Five-minute candles kept per asset: 24 hours.
pub const OHLC_5M_CAPACITY: usize = 288;

/// An entry that belongs to one asset.
pub trait Tagged: Sized {
    spec fn tag(&self) -> Seq<char>;

    fn asset_ref(&self) -> (r: &String)
        ensures
            r@ == self.tag(),
    ;

    fn copy_entry(&self) -> (r: Self)
        ensures
            r == *self,
    ;
}

impl Tagged for PricePoint {
    open spec fn tag(&self) -> Seq<char> {
        self.asset@
    }

    fn asset_ref(&self) -> (r: &String) {
        &self.asset
    }

    fn copy_entry(&self) -> (r: Self) {
        self.duplicate()
    }
}

impl Tagged for Candle {
    open spec fn tag(&self) -> Seq<char> {
        self.asset@
    }

    fn asset_ref(&self) -> (r: &String) {
        &self.asset
    }

    fn copy_entry(&self) -> (r: Self) {
        self.duplicate()
    }
}

/// The entries of `s` that belong to `a`, oldest first.
pub open spec fn tagged<T: Tagged>(s: Seq<T>, a: Seq<char>) -> Seq<T>
    decreases s.len(),
{
    if s.len() == 0 {
        Seq::empty()
    } else if s.last().tag() == a {
        tagged(s.drop_last(), a).push(s.last())
    } else {
        tagged(s.drop_last(), a)
    }
}

/// Position of the oldest entry of `a` in `s`, or -1.
pub open spec fn first_tagged<T: Tagged>(s: Seq<T>, a: Seq<char>) -> int
    decreases s.len(),
{
    if s.len() == 0 {
        -1
    } else if s[0].tag() == a {
        0
    } else {
        let r = first_tagged(s.drop_first(), a);
        if r < 0 { -1 } else { r + 1 }
    }
}

/// `s` after appending `e` with a per-asset cap of `cap`.
pub open spec fn after_ingest<T: Tagged>(s: Seq<T>, cap: int, e: T) -> Seq<T> {
    let p = s.push(e);
    if tagged(p, e.tag()).len() > cap {
        p.remove(first_tagged(p, e.tag()))
    } else {
        p
    }
}

/// No asset has more than `cap` entries in `s`.
pub open spec fn within_capacity<T: Tagged>(s: Seq<T>, cap: int) -> bool {
    forall|a: Seq<char>| #[trigger] tagged(s, a).len() <= cap
}

/// The last `limit` entries of `a` in `s`, oldest first.
pub open spec fn last_tagged<T: Tagged>(s: Seq<T>, a: Seq<char>, limit: int) -> Seq<T> {
    let t = tagged(s, a);
    if t.len() > limit { t.subrange(t.len() - limit, t.len() as int) } else { t }
}

proof fn lemma_tagged_push<T: Tagged>(s: Seq<T>, e: T, a: Seq<char>)
    ensures
        tagged(s.push(e), a) == if e.tag() == a { tagged(s, a).push(e) } else { tagged(s, a) },
{
    assert(s.push(e).drop_last() =~= s);
}

proof fn lemma_tagged_remove<T: Tagged>(s: Seq<T>, i: int, a: Seq<char>)
    requires
        0 <= i < s.len(),
    ensures
        tagged(s.remove(i), a).len() == tagged(s, a).len() - (if s[i].tag() == a { 1int } else { 0 }),
    decreases s.len(),
{
    if i == s.len() - 1 {
        assert(s.remove(i) =~= s.drop_last());
    } else {
        lemma_tagged_remove(s.drop_last(), i, a);
        assert(s.remove(i).drop_last() =~= s.drop_last().remove(i));
        assert(s.remove(i).last() == s.last());
    }
}

proof fn lemma_first_tagged<T: Tagged>(s: Seq<T>, a: Seq<char>)
    ensures
        -1 <= first_tagged(s, a) < s.len(),
        first_tagged(s, a) >= 0 ==> s[first_tagged(s, a)].tag() == a,
        forall|j: int| 0 <= j < s.len() && (first_tagged(s, a) < 0 || j < first_tagged(s, a))
            ==> s[j].tag() != a,
    decreases s.len(),
{
    if s.len() > 0 {
        lemma_first_tagged(s.drop_first(), a);
        assert forall|j: int| 0 <= j < s.len() && (first_tagged(s, a) < 0 || j < first_tagged(s, a))
            implies s[j].tag() != a by {
            if j > 0 {
                assert(s.drop_first()[j - 1] == s[j]);
            }
        }
    }
}

proof fn lemma_tagged_empty_without_match<T: Tagged>(s: Seq<T>, a: Seq<char>)
    requires
        forall|j: int| 0 <= j < s.len() ==> s[j].tag() != a,
    ensures
        tagged(s, a).len() == 0,
    decreases s.len(),
{
    if s.len() > 0 {
        lemma_tagged_empty_without_match(s.drop_last(), a);
    }
}

/// Appending with eviction never lets any asset exceed the cap.
pub proof fn lemma_ingest_within_capacity<T: Tagged>(s: Seq<T>, cap: int, e: T)
    requires
        within_capacity(s, cap),
        cap >= 0,
    ensures
        within_capacity(after_ingest(s, cap, e), cap),
{
    let p = s.push(e);
    assert forall|b: Seq<char>| #[trigger] tagged(after_ingest(s, cap, e), b).len() <= cap by {
        lemma_tagged_push(s, e, b);
        assert(tagged(s, b).len() <= cap);
        if tagged(p, e.tag()).len() > cap {
            lemma_tagged_push(s, e, e.tag());
            assert(tagged(s, e.tag()).len() <= cap);
            lemma_first_tagged(p, e.tag());
            let i = first_tagged(p, e.tag());
            if i < 0 {
                lemma_tagged_empty_without_match(p, e.tag());
            }
            lemma_tagged_remove(p, i, b);
        }
    }
}

/// One resolution tier: entries of every asset, at most `capacity` per asset.
pub struct Window<T> {
    entries: Vec<T>,
    capacity: usize,
}

impl<T: Tagged> Window<T> {
    pub closed spec fn view_entries(&self) -> Seq<T> {
        self.entries@
    }

    pub closed spec fn cap(&self) -> int {
        self.capacity as int
    }

    pub open spec fn wf(&self) -> bool {
        within_capacity(self.view_entries(), self.cap())
    }

    pub fn new(capacity: usize) -> (r: Self)
        ensures
            r.wf(),
            r.cap() == capacity,
            r.view_entries().len() == 0,
    {
        let w = Window { entries: Vec::new(), capacity };
        proof {
            assert forall|a: Seq<char>| #[trigger] tagged(w.entries@, a).len() <= capacity by {}
        }
        w
    }

    pub fn capacity(&self) -> (r: usize)
        ensures
            r == self.cap(),
    {
        self.capacity
    }

    /// Number of entries of `asset`.
    pub fn count(&self, asset: &String) -> (r: usize)
        ensures
            r == tagged(self.view_entries(), asset@).len(),
    {
        let mut n: usize = 0;
        let mut i: usize = 0;
        while i < self.entries.len()
            invariant
                i <= self.entries@.len(),
                n == tagged(self.entries@.subrange(0, i as int), asset@).len(),
                n <= i,
            decreases self.entries@.len() - i,
        {
            proof {
                let pre = self.entries@.subrange(0, i as int + 1);
                assert(pre.drop_last() =~= self.entries@.subrange(0, i as int));
            }
            if *self.entries[i].asset_ref() == *asset {
                n = n + 1;
            }
            i = i + 1;
        }
        proof {
            assert(self.entries@.subrange(0, i as int) =~= self.entries@);
        }
        n
    }

    /// Appends `e`, then evicts the oldest entry of its asset if that asset
    /// is now over capacity.
    pub fn push(&mut self, e: T)
        requires
            old(self).wf(),
        ensures
            final(self).wf(),
            final(self).cap() == old(self).cap(),
            final(self).view_entries() == after_ingest(old(self).view_entries(), old(self).cap(), e),
    {
        let ghost s0 = self.entries@;
        let asset = e.asset_ref().clone();
        self.entries.push(e);
        let n = self.count(&asset);
        if n > self.capacity {
            let i = self.oldest_index(&asset);
            proof {
                lemma_first_tagged(s0.push(e), asset@);
                assert(self.entries@[s0.len() as int].tag() == asset@);
            }
            let i = i.unwrap();
            self.entries.remove(i);
        }
        proof {
            lemma_ingest_within_capacity(s0, self.capacity as int, e);
        }
    }

    /// Position of the oldest entry of `asset`, if any.
    fn oldest_index(&self, asset: &String) -> (r: Option<usize>)
        ensures
            r is Some <==> first_tagged(self.entries@, asset@) >= 0,
            r is Some ==> r.unwrap() as int == first_tagged(self.entries@, asset@),
            r is Some ==> r.unwrap() < self.entries@.len(),
    {
        proof {
            lemma_first_tagged(self.entries@, asset@);
        }
        let mut i: usize = 0;
        while i < self.entries.len()
            invariant
                i <= self.entries@.len(),
                forall|j: int| 0 <= j < i ==> self.entries@[j].tag() != asset@,
                -1 <= first_tagged(self.entries@, asset@) < self.entries@.len(),
                first_tagged(self.entries@, asset@) >= 0 ==> self.entries@[first_tagged(self.entries@, asset@)].tag() == asset@,
                forall|j: int| 0 <= j < self.entries@.len() && (first_tagged(self.entries@, asset@) < 0 || j < first_tagged(self.entries@, asset@))
                    ==> self.entries@[j].tag() != asset@,
            decreases self.entries@.len() - i,
        {
            if *self.entries[i].asset_ref() == *asset {
                return Some(i);
            }
            i = i + 1;
        }
        None
    }

    /// Position of the newest entry of `asset`, if any.
    pub fn latest_index(&self, asset: &String) -> (r: Option<usize>)
        ensures
            r is None <==> tagged(self.view_entries(), asset@).len() == 0,
            r is Some ==> r.unwrap() < self.view_entries().len()
                && self.view_entries()[r.unwrap() as int] == tagged(self.view_entries(), asset@).last(),
    {
        let mut found: Option<usize> = None;
        let mut i: usize = 0;
        while i < self.entries.len()
            invariant
                i <= self.entries@.len(),
                found is None <==> tagged(self.entries@.subrange(0, i as int), asset@).len() == 0,
                found is Some ==> found.unwrap() < i
                    && self.entries@[found.unwrap() as int]
                        == tagged(self.entries@.subrange(0, i as int), asset@).last(),
            decreases self.entries@.len() - i,
        {
            proof {
                let pre = self.entries@.subrange(0, i as int + 1);
                assert(pre.drop_last() =~= self.entries@.subrange(0, i as int));
            }
            if *self.entries[i].asset_ref() == *asset {
                found = Some(i);
            }
            i = i + 1;
        }
        proof {
            assert(self.entries@.subrange(0, i as int) =~= self.entries@);
        }
        found
    }

    /// Copies of the last `limit` entries of `asset`, oldest first; fewer
    /// when there is less history.
    pub fn window(&self, asset: &String, limit: usize) -> (r: Vec<T>)
        ensures
            r@ == last_tagged(self.view_entries(), asset@, limit as int),
    {
        let total = self.count(asset);
        let skip: usize = if total > limit { total - limit } else { 0 };
        let mut out: Vec<T> = Vec::new();
        let mut seen: usize = 0;
        let mut i: usize = 0;
        while i < self.entries.len()
            invariant
                i <= self.entries@.len(),
                total == tagged(self.entries@, asset@).len(),
                skip == (if total > limit { total - limit } else { 0 }),
                seen == tagged(self.entries@.subrange(0, i as int), asset@).len(),
                seen <= i,
                out@ =~= tagged(self.entries@.subrange(0, i as int), asset@).subrange(
                    if seen < skip { seen as int } else { skip as int },
                    seen as int,
                ),
            decreases self.entries@.len() - i,
        {
            proof {
                let pre = self.entries@.subrange(0, i as int + 1);
                assert(pre.drop_last() =~= self.entries@.subrange(0, i as int));
            }
            if *self.entries[i].asset_ref() == *asset {
                if seen >= skip {
                    out.push(self.entries[i].copy_entry());
                }
                seen = seen + 1;
            }
            i = i + 1;
        }
        proof {
            assert(self.entries@.subrange(0, i as int) =~= self.entries@);
        }
        out
    }
}

/// Price of the newest tick of `a`, if any.
pub open spec fn latest_price_of(ticks: Seq<PricePoint>, a: Seq<char>) -> Option<u64> {
    let t = tagged(ticks, a);
    if t.len() == 0 { None } else { Some(t.last().price) }
}

/// `num / den` in fixed point; `None` for a zero divisor or a result that
/// does not fit in `u64`.
pub open spec fn ratio(num: u64, den: u64) -> Option<u64> {
    if den > 0 && fx_div(num as int, den as int) <= u64::MAX {
        Some(fx_div(num as int, den as int) as u64)
    } else {
        None
    }
}

/// The price of `base` in `quote` units, from the newest ticks.
pub open spec fn pair_price_of(ticks: Seq<PricePoint>, base: Seq<char>, quote: Seq<char>) -> Option<u64> {
    if quote == reference_asset() {
        latest_price_of(ticks, base)
    } else if base == reference_asset() {
        match latest_price_of(ticks, quote) {
            Some(q) => ratio(SCALE, q),
            None => None,
        }
    } else {
        match (latest_price_of(ticks, base), latest_price_of(ticks, quote)) {
            (Some(b), Some(q)) => ratio(b, q),
            _ => None,
        }
    }
}

/// For two assets other than the reference currency, the pair price is the
/// base asset's newest price divided by the quote asset's, whenever both are
/// present, the divisor is not zero and the quotient fits; it is absent when
/// either leg is missing.
pub proof fn lemma_cross_pair_price(ticks: Seq<PricePoint>, base: Seq<char>, quote: Seq<char>)
    requires
        base != reference_asset(),
        quote != reference_asset(),
    ensures
        latest_price_of(ticks, base) is None ==> pair_price_of(ticks, base, quote) is None,
        latest_price_of(ticks, quote) is None ==> pair_price_of(ticks, base, quote) is None,
        ({
            let b = latest_price_of(ticks, base);
            let q = latest_price_of(ticks, quote);
            b is Some && q is Some && q.unwrap() > 0 && fx_div(b.unwrap() as int, q.unwrap() as int) <= u64::MAX
                ==> pair_price_of(ticks, base, quote) == Some(fx_div(b.unwrap() as int, q.unwrap() as int) as u64)
        }),
{
}

/// Which candle tier an OHLC entry goes to.
#[derive(Debug, Clone, Copy, PartialEq, Eq, Structural)]
pub enum OhlcResolution {
    OneMinute,
    FiveMinute,
}

/// All price history of the process.
pub struct MarketData {
    pub ticks: Window<PricePoint>,
    pub history_5m: Window<PricePoint>,
    pub ohlc_1m: Window<Candle>,
    pub ohlc_5m: Window<Candle>,
}

impl MarketData {
    pub open spec fn wf(&self) -> bool {
        &&& self.ticks.wf()
        &&& self.history_5m.wf()
        &&& self.ohlc_1m.wf()
        &&& self.ohlc_5m.wf()
    }

    pub fn new() -> (r: Self)
        ensures
            r.wf(),
            r.ticks.view_entries().len() == 0,
            r.ticks.cap() == TICK_CAPACITY,
            r.history_5m.cap() == HISTORY_CAPACITY,
            r.ohlc_1m.cap() == OHLC_1M_CAPACITY,
            r.ohlc_5m.cap() == OHLC_5M_CAPACITY,
    {
        MarketData {
            ticks: Window::new(TICK_CAPACITY),
            history_5m: Window::new(HISTORY_CAPACITY),
            ohlc_1m: Window::new(OHLC_1M_CAPACITY),
            ohlc_5m: Window::new(OHLC_5M_CAPACITY),
        }
    }

    /// Records a raw tick.
    pub fn ingest(&mut self, tick: PricePoint)
        requires
            old(self).wf(),
        ensures
            final(self).wf(),
            final(self).ticks.view_entries() == after_ingest(old(self).ticks.view_entries(), old(self).ticks.cap(), tick),
            final(self).ticks.cap() == old(self).ticks.cap(),
            final(self).history_5m == old(self).history_5m,
            final(self).ohlc_1m == old(self).ohlc_1m,
            final(self).ohlc_5m == old(self).ohlc_5m,
    {
        self.ticks.push(tick);
    }

    /// Records a five-minute closing price.
    pub fn ingest_history(&mut self, point: PricePoint)
        requires
            old(self).wf(),
        ensures
            final(self).wf(),
            final(self).history_5m.view_entries()
                == after_ingest(old(self).history_5m.view_entries(), old(self).history_5m.cap(), point),
            final(self).history_5m.cap() == old(self).history_5m.cap(),
            final(self).ticks == old(self).ticks,
            final(self).ohlc_1m == old(self).ohlc_1m,
            final(self).ohlc_5m == old(self).ohlc_5m,
    {
        self.history_5m.push(point);
    }

    /// Records a closed candle in the tier of `resolution`.
    pub fn ingest_ohlc(&mut self, resolution: OhlcResolution, candle: Candle)
        requires
            old(self).wf(),
        ensures
            final(self).wf(),
            final(self).ticks == old(self).ticks,
            final(self).history_5m == old(self).history_5m,
            resolution == OhlcResolution::OneMinute ==> final(self).ohlc_1m.view_entries()
                == after_ingest(old(self).ohlc_1m.view_entries(), old(self).ohlc_1m.cap(), candle)
                && final(self).ohlc_1m.cap() == old(self).ohlc_1m.cap()
                && final(self).ohlc_5m == old(self).ohlc_5m,
            resolution == OhlcResolution::FiveMinute ==> final(self).ohlc_5m.view_entries()
                == after_ingest(old(self).ohlc_5m.view_entries(), old(self).ohlc_5m.cap(), candle)
                && final(self).ohlc_5m.cap() == old(self).ohlc_5m.cap()
                && final(self).ohlc_1m == old(self).ohlc_1m,
    {
        match resolution {
            OhlcResolution::OneMinute => self.ohlc_1m.push(candle),
            OhlcResolution::FiveMinute => self.ohlc_5m.push(candle),
        }
    }

    /// Price of the newest tick of `asset`; `None` when there is no data.
    pub fn latest_price(&self, asset: &String) -> (r: Option<u64>)
        ensures
            r == latest_price_of(self.ticks.view_entries(), asset@),
    {
        match self.ticks.latest_index(asset) {
            Some(i) => Some(self.ticks.entries[i].price),
            None => None,
        }
    }

    /// Price of `base` in units of `quote`: direct against the reference
    /// currency, inverted when `base` is the reference, else triangulated.
    /// `None` when a leg is missing, a divisor is zero or the result does not
    /// fit.
    pub fn pair_price(&self, base: &String, quote: &String) -> (r: Option<u64>)
        ensures
            r == pair_price_of(self.ticks.view_entries(), base@, quote@),
    {
        if is_reference_asset(quote) {
            self.latest_price(base)
        } else if is_reference_asset(base) {
            match self.latest_price(quote) {
                Some(q) => checked_fx_div(SCALE, q),
                None => None,
            }
        } else {
            match (self.latest_price(base), self.latest_price(quote)) {
                (Some(b), Some(q)) => checked_fx_div(b, q),
                _ => None,
            }
        }
    }

    /// The last `limit` raw ticks of `asset`, oldest first.
    pub fn price_window(&self, asset: &String, limit: usize) -> (r: Vec<PricePoint>)
        ensures
            r@ == last_tagged(self.ticks.view_entries(), asset@, limit as int),
    {
        self.ticks.window(asset, limit)
    }

    /// The last `limit` five-minute closing prices of `asset`, oldest first.
    pub fn history_window(&self, asset: &String, limit: usize) -> (r: Vec<PricePoint>)
        ensures
            r@ == last_tagged(self.history_5m.view_entries(), asset@, limit as int),
    {
        self.history_5m.window(asset, limit)
    }

    /// The last `limit` candles of `asset` in the tier of `resolution`.
    pub fn ohlc_window(&self, resolution: OhlcResolution, asset: &String, limit: usize) -> (r: Vec<Candle>)
        ensures
            resolution == OhlcResolution::OneMinute
                ==> r@ == last_tagged(self.ohlc_1m.view_entries(), asset@, limit as int),
            resolution == OhlcResolution::FiveMinute
                ==> r@ == last_tagged(self.ohlc_5m.view_entries(), asset@, limit as int),
    {
        match resolution {
            OhlcResolution::OneMinute => self.ohlc_1m.window(asset, limit),
            OhlcResolution::FiveMinute => self.ohlc_5m.window(asset, limit),
        }
    }
}

/// Ticks per one-minute candle at a 5-second cadence.
pub const TICKS_PER_1M: u32 = 12;
/// Ticks per five-minute candle at a 5-second cadence.
pub const TICKS_PER_5M: u32 = 60;

/// Accumulates the ticks of one asset into candles of `period_ticks` ticks:
/// `open` is the first price of the period, `high` and `low` the extremes,
/// `close` the last price.
pub struct CandleBuilder {
    pub asset: String,
    pub period_ticks: u32,
    pub count: u32,
    pub start: i64,
    pub open: u64,
    pub high: u64,
    pub low: u64,
    pub close: u64,
}

impl CandleBuilder {
    pub open spec fn wf(&self) -> bool {
        &&& self.period_ticks > 0
        &&& self.count < self.period_ticks
        &&& self.count > 0 ==> self.low <= self.open <= self.high && self.low <= self.close <= self.high
    }

    pub fn new(asset: String, period_ticks: u32) -> (r: Self)
        requires
            period_ticks > 0,
        ensures
            r.wf(),
            r.asset == asset,
            r.period_ticks == period_ticks,
            r.count == 0,
    {
        CandleBuilder { asset, period_ticks, count: 0, start: 0, open: 0, high: 0, low: 0, close: 0 }
    }

    /// Adds one tick; returns the candle when this tick completes a period,
    /// after which the accumulator starts afresh.
    pub fn observe(&mut self, timestamp: i64, price: u64) -> (r: Option<Candle>)
        requires
            old(self).wf(),
        ensures
            final(self).wf(),
            final(self).asset == old(self).asset,
            final(self).period_ticks == old(self).period_ticks,
            ({
                let o = old(self);
                let start = if o.count == 0 { timestamp } else { o.start };
                let open = if o.count == 0 { price } else { o.open };
                let high = if o.count == 0 || price > o.high { price } else { o.high };
                let low = if o.count == 0 || price < o.low { price } else { o.low };
                if o.count + 1 == o.period_ticks {
                    &&& r == Some(Candle { timestamp: start, asset: o.asset, open, high, low, close: price })
                    &&& final(self).count == 0
                } else {
                    &&& r is None
                    &&& final(self).count == o.count + 1
                    &&& final(self).start == start
                    &&& final(self).open == open
                    &&& final(self).high == high
                    &&& final(self).low == low
                    &&& final(self).close == price
                }
            }),
    {
        if self.count == 0 {
            self.start = timestamp;
            self.open = price;
            self.high = price;
            self.low = price;
        } else {
            if price > self.high {
                self.high = price;
            }
            if price < self.low {
                self.low = price;
            }
        }
        self.close = price;
        self.count = self.count + 1;
        if self.count == self.period_ticks {
            self.count = 0;
            Some(Candle {
                timestamp: self.start,
                asset: self.asset.clone(),
                open: self.open,
                high: self.high,
                low: self.low,
                close: self.close,
            })
        } else {
            None
        }
    }
}

} // verus!
