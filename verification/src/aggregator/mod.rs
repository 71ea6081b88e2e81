//! The aggregation store: the latest observation of every source for every
//! ticker, and the volume-weighted merge of those that are still fresh.

pub mod laws;

use crate::clock::unix_now;
use crate::collector::{views_of, MarketData, MarketDataView};
use crate::aggregator::laws::lemma_total_volume_is_exact;
use crate::decimal::{pow10, Decimal, DecimalValue, MAX_SCALE};
use crate::error::Error;
use vstd::prelude::*;
use vstd::string::*;

verus! {

/// Where in `bucket` the observation of `provider` stands, or the length of
/// the bucket where it holds none.
pub open spec fn source_position(bucket: Seq<MarketDataView>, provider: Seq<char>) -> int
    decreases bucket.len(),
{
    if bucket.len() == 0 {
        0
    } else if bucket[0].provider == provider {
        0
    } else {
        1 + source_position(bucket.drop_first(), provider)
    }
}

/// Where in `buckets` the bucket of `ticker` stands, or their number where
/// there is none. A bucket belongs to the ticker of its first observation.
pub open spec fn ticker_position(buckets: Seq<Seq<MarketDataView>>, ticker: Seq<char>) -> int
    decreases buckets.len(),
{
    if buckets.len() == 0 {
        0
    } else if buckets[0].len() > 0 && buckets[0][0].ticker == ticker {
        0
    } else {
        1 + ticker_position(buckets.drop_first(), ticker)
    }
}

/// The bucket after it took `observation`: the entry of the same source is
/// replaced, or the observation is added at the end.
pub open spec fn bucket_with(bucket: Seq<MarketDataView>, observation: MarketDataView) -> Seq<
    MarketDataView,
> {
    let at = source_position(bucket, observation.provider);
    if at < bucket.len() {
        bucket.update(at, observation)
    } else {
        bucket.push(observation)
    }
}

/// The buckets after they took `observation`: it goes to the bucket of its
/// ticker, or opens a new bucket at the end.
pub open spec fn buckets_with(
    buckets: Seq<Seq<MarketDataView>>,
    observation: MarketDataView,
) -> Seq<Seq<MarketDataView>> {
    let at = ticker_position(buckets, observation.ticker);
    if at < buckets.len() {
        buckets.update(at, bucket_with(buckets[at], observation))
    } else {
        buckets.push(seq![observation])
    }
}

/// A bucket is not empty, holds one ticker only and no source twice.
pub open spec fn bucket_well_formed(bucket: Seq<MarketDataView>) -> bool {
    &&& bucket.len() > 0
    &&& forall|j: int| 0 <= j < bucket.len() ==> (#[trigger] bucket[j]).ticker == bucket[0].ticker
    &&& forall|j: int, k: int|
        0 <= j < k < bucket.len() ==> (#[trigger] bucket[j]).provider != (
        #[trigger] bucket[k]).provider
}

/// Every bucket is well formed and no two buckets share a ticker.
pub open spec fn buckets_well_formed(buckets: Seq<Seq<MarketDataView>>) -> bool {
    &&& forall|i: int| 0 <= i < buckets.len() ==> bucket_well_formed(#[trigger] buckets[i])
    &&& forall|i: int, j: int|
        0 <= i < j < buckets.len() ==> (#[trigger] buckets[i])[0].ticker != (
        #[trigger] buckets[j])[0].ticker
}

/// An observation is fresh while it is younger than `ttl` seconds: one aged
/// exactly `ttl` is stale.
pub open spec fn is_fresh(observation: MarketDataView, ttl: int, now: int) -> bool {
    observation.timestamp > now - ttl
}

/// The fresh observations of a bucket, in the bucket's order.
pub open spec fn fresh_entries(bucket: Seq<MarketDataView>, ttl: int, now: int) -> Seq<
    MarketDataView,
>
    decreases bucket.len(),
{
    if bucket.len() == 0 {
        Seq::empty()
    } else {
        let before = fresh_entries(bucket.drop_last(), ttl, now);
        if is_fresh(bucket.last(), ttl, now) {
            before.push(bucket.last())
        } else {
            before
        }
    }
}

/// The sum of the volumes, added up from zero in the given order.
pub open spec fn total_volume(entries: Seq<MarketDataView>) -> DecimalValue
    decreases entries.len(),
{
    if entries.len() == 0 {
        DecimalValue::zero()
    } else {
        total_volume(entries.drop_last()).plus(entries.last().volume)
    }
}

/// The share of one observation in the merged price: its volume over the
/// total, times its price. `None` where the total is zero or a scale leaves
/// its range.
pub open spec fn weighted_price(observation: MarketDataView, total: DecimalValue) -> Option<
    DecimalValue,
> {
    match observation.volume.checked_over(total) {
        Some(weight) => weight.checked_times(observation.price),
        None => None,
    }
}

/// Bounds under which the share of an observation can be computed for
/// sure: the total is not zero and has fewer than `digits` digits, and no
/// scale exceeds `scale` either way, with room left for the hundred digits
/// of a weight.
pub open spec fn share_is_tame(
    observation: MarketDataView,
    total: DecimalValue,
    scale: int,
    digits: nat,
) -> bool {
    &&& total.unscaled != 0
    &&& -pow10(digits) < total.unscaled < pow10(digits)
    &&& 0 <= total.scale <= scale
    &&& -scale <= observation.volume.scale <= scale
    &&& -scale <= observation.price.scale <= scale
    &&& 3 * scale + digits + 100 <= MAX_SCALE
}

/// Bounds under which observations can be merged for sure: their volumes
/// add up to a number other than zero, of fewer than `digits` digits, and no
/// scale of a price or a volume exceeds `scale` either way, with room left
/// for the hundred digits of a weight.
pub open spec fn can_be_weighed(entries: Seq<MarketDataView>, scale: int, digits: nat) -> bool {
    &&& 0 <= scale
    &&& 3 * scale + digits + 100 <= MAX_SCALE
    &&& total_volume(entries).unscaled != 0
    &&& -pow10(digits) < total_volume(entries).unscaled < pow10(digits)
    &&& forall|k: int|
        0 <= k < entries.len() ==> -scale <= (#[trigger] entries[k]).volume.scale <= scale
            && -scale <= entries[k].price.scale <= scale
}

/// Bounds under which a snapshot exists for sure: every ticker with
/// several fresh observations can be weighed within them.
pub open spec fn snapshot_can_be_weighed(
    buckets: Seq<Seq<MarketDataView>>,
    ttl: int,
    now: int,
    scale: int,
    digits: nat,
) -> bool {
    forall|i: int|
        0 <= i < buckets.len() && fresh_entries(#[trigger] buckets[i], ttl, now).len() >= 2
            ==> can_be_weighed(fresh_entries(buckets[i], ttl, now), scale, digits)
}

/// The sum of the weighted prices, in the given order, starting from the
/// share of the first observation. `None` where one of the shares is.
pub open spec fn merged_price(entries: Seq<MarketDataView>, total: DecimalValue) -> Option<
    DecimalValue,
>
    decreases entries.len(),
{
    if entries.len() == 0 {
        None
    } else if entries.len() == 1 {
        weighted_price(entries[0], total)
    } else {
        match (merged_price(entries.drop_last(), total), weighted_price(entries.last(), total)) {
            (Some(sum), Some(share)) => Some(sum.plus(share)),
            _ => None,
        }
    }
}

/// The latest of the timestamps of a sequence that is not empty.
pub open spec fn latest_timestamp(entries: Seq<MarketDataView>) -> int
    decreases entries.len(),
{
    if entries.len() == 0 {
        0
    } else if entries.len() == 1 {
        entries[0].timestamp
    } else {
        let before = latest_timestamp(entries.drop_last());
        if entries.last().timestamp > before {
            entries.last().timestamp
        } else {
            before
        }
    }
}

/// The volume-weighted merge of the observations of one ticker. It speaks
/// for the source and the ticker of the first of them, weighs each price by
/// its volume's share of the total, carries the total as its volume and the
/// latest timestamp. `None` where the weights cannot be computed.
pub open spec fn merged(entries: Seq<MarketDataView>) -> Option<MarketDataView> {
    let total = total_volume(entries);
    match merged_price(entries, total) {
        Some(price) => Some(
            MarketDataView {
                provider: entries[0].provider,
                ticker: entries[0].ticker,
                price,
                volume: total,
                timestamp: latest_timestamp(entries),
            },
        ),
        None => None,
    }
}

/// What one bucket adds to a snapshot: nothing where no observation is
/// fresh, the one fresh observation unchanged, or the merge of several.
/// `None` where several are fresh and cannot be merged.
pub open spec fn bucket_quote(bucket: Seq<MarketDataView>, ttl: int, now: int) -> Option<
    Seq<MarketDataView>,
> {
    let fresh = fresh_entries(bucket, ttl, now);
    if fresh.len() == 0 {
        Some(Seq::empty())
    } else if fresh.len() == 1 {
        Some(seq![fresh[0]])
    } else {
        match merged(fresh) {
            Some(quote) => Some(seq![quote]),
            None => None,
        }
    }
}

/// The snapshot of the buckets at `now`: the quotes of the buckets, in the
/// buckets' order. `None` where one of the buckets cannot be merged.
pub open spec fn snapshot_of(buckets: Seq<Seq<MarketDataView>>, ttl: int, now: int) -> Option<
    Seq<MarketDataView>,
>
    decreases buckets.len(),
{
    if buckets.len() == 0 {
        Some(Seq::empty())
    } else {
        match (snapshot_of(buckets.drop_last(), ttl, now), bucket_quote(buckets.last(), ttl, now)) {
            (Some(before), Some(quote)) => Some(before + quote),
            _ => None,
        }
    }
}

/// The mathematical content of a [`PriceAggregator`]: the staleness window
/// in seconds and the buckets in the order in which their tickers were first
/// seen, each holding its observations in the order in which their sources
/// were first seen.
pub struct AggregatorView {
    pub ttl: int,
    pub buckets: Seq<Seq<MarketDataView>>,
}

impl AggregatorView {
    /// The window is not negative, every bucket is well formed and no two
    /// buckets share a ticker.
    pub open spec fn well_formed(self) -> bool {
        self.ttl >= 0 && buckets_well_formed(self.buckets)
    }

    /// The store after it took `observation`.
    pub open spec fn consume(self, observation: MarketDataView) -> AggregatorView {
        AggregatorView { ttl: self.ttl, buckets: buckets_with(self.buckets, observation) }
    }

    /// The snapshot of the store at `now`.
    pub open spec fn snapshot(self, now: int) -> Option<Seq<MarketDataView>> {
        snapshot_of(self.buckets, self.ttl, now)
    }
}

/// `source_position` finds the first entry of the source and nothing before it.
pub proof fn lemma_source_position(bucket: Seq<MarketDataView>, provider: Seq<char>)
    ensures
        0 <= source_position(bucket, provider) <= bucket.len(),
        source_position(bucket, provider) < bucket.len() ==> bucket[source_position(
            bucket,
            provider,
        )].provider == provider,
        forall|k: int|
            0 <= k < source_position(bucket, provider) ==> (#[trigger] bucket[k]).provider
                != provider,
    decreases bucket.len(),
{
    if bucket.len() > 0 && bucket[0].provider != provider {
        let rest = bucket.drop_first();
        lemma_source_position(rest, provider);
        assert forall|k: int| 0 <= k < source_position(bucket, provider) implies (
        #[trigger] bucket[k]).provider != provider by {
            if k > 0 {
                assert(rest[k - 1] == bucket[k]);
            }
        }
    }
}

/// `ticker_position` finds the first bucket of the ticker and nothing before it.
pub proof fn lemma_ticker_position(buckets: Seq<Seq<MarketDataView>>, ticker: Seq<char>)
    ensures
        0 <= ticker_position(buckets, ticker) <= buckets.len(),
        ticker_position(buckets, ticker) < buckets.len() ==> {
            let at = ticker_position(buckets, ticker);
            buckets[at].len() > 0 && buckets[at][0].ticker == ticker
        },
        forall|k: int|
            0 <= k < ticker_position(buckets, ticker) ==> !((#[trigger] buckets[k]).len() > 0
                && buckets[k][0].ticker == ticker),
    decreases buckets.len(),
{
    if buckets.len() > 0 && !(buckets[0].len() > 0 && buckets[0][0].ticker == ticker) {
        let rest = buckets.drop_first();
        lemma_ticker_position(rest, ticker);
        assert forall|k: int| 0 <= k < ticker_position(buckets, ticker) implies !((
        #[trigger] buckets[k]).len() > 0 && buckets[k][0].ticker == ticker) by {
            if k > 0 {
                assert(rest[k - 1] == buckets[k]);
            }
        }
    }
}

/// A well-formed bucket stays well formed when it takes an observation of
/// its own ticker.
pub proof fn lemma_bucket_with_well_formed(bucket: Seq<MarketDataView>, observation: MarketDataView)
    requires
        bucket_well_formed(bucket),
        observation.ticker == bucket[0].ticker,
    ensures
        bucket_well_formed(bucket_with(bucket, observation)),
        bucket_with(bucket, observation)[0].ticker == bucket[0].ticker,
{
    lemma_source_position(bucket, observation.provider);
}

/// A well-formed store stays well formed when it takes an observation: no
/// bucket ever holds two entries of one source, nor two tickers, and no
/// ticker ever has two buckets.
pub proof fn lemma_consume_well_formed(store: AggregatorView, observation: MarketDataView)
    requires
        store.well_formed(),
    ensures
        store.consume(observation).well_formed(),
{
    let buckets = store.buckets;
    let at = ticker_position(buckets, observation.ticker);
    let after = store.consume(observation).buckets;
    lemma_ticker_position(buckets, observation.ticker);
    if at < buckets.len() {
        lemma_bucket_with_well_formed(buckets[at], observation);
        assert forall|i: int| 0 <= i < after.len() implies bucket_well_formed(
            #[trigger] after[i],
        ) by {
            if i != at {
                assert(after[i] == buckets[i]);
            }
        }
        assert forall|i: int, j: int| 0 <= i < j < after.len() implies (#[trigger] after[i])[0].ticker
            != (#[trigger] after[j])[0].ticker by {
            assert(after[i][0].ticker == buckets[i][0].ticker);
            assert(after[j][0].ticker == buckets[j][0].ticker);
        }
    } else {
        assert forall|i: int| 0 <= i < after.len() implies bucket_well_formed(
            #[trigger] after[i],
        ) by {
            if i < buckets.len() {
                assert(after[i] == buckets[i]);
            }
        }
        assert forall|i: int, j: int| 0 <= i < j < after.len() implies (#[trigger] after[i])[0].ticker
            != (#[trigger] after[j])[0].ticker by {
            assert(after[i] == buckets[i]);
            assert(bucket_well_formed(buckets[i]));
        }
    }
}

/// The contents of the buckets of a store.
pub open spec fn bucket_views(buckets: Seq<Vec<MarketData>>) -> Seq<Seq<MarketDataView>> {
    Seq::new(buckets.len(), |i: int| views_of(buckets[i]@))
}

/// The message of the error that `snapshot` and `aggregate` return.
pub open spec fn unmergeable() -> Seq<char> {
    "can't weigh prices by volume"@
}

/// Whether `result` is what a snapshot of `store` at `now` must return.
pub open spec fn is_snapshot(
    store: AggregatorView,
    now: int,
    result: Result<Vec<MarketData>, Error>,
) -> bool {
    match store.snapshot(now) {
        Some(quotes) => result is Ok && views_of(result->Ok_0@) == quotes,
        None => result matches Err(Error::AggregatorError(message)) && message@ == unmergeable(),
    }
}

/// Whether `result` is what `aggregate` must return where the clock reads
/// `now`: the snapshot at that moment, which exists where the store can be
/// weighed then.
pub open spec fn is_aggregate(
    store: AggregatorView,
    now: int,
    result: Result<Vec<MarketData>, Error>,
) -> bool {
    &&& is_snapshot(store, now, result)
    &&& forall|scale: int, digits: nat| #[trigger]
        snapshot_can_be_weighed(store.buckets, store.ttl, now, scale, digits) ==> result is Ok
}

/// The aggregation store.
pub struct PriceAggregator {
    ttl: u64,
    buckets: Vec<Vec<MarketData>>,
}

impl View for PriceAggregator {
    type V = AggregatorView;

    closed spec fn view(&self) -> AggregatorView {
        AggregatorView { ttl: self.ttl as int, buckets: bucket_views(self.buckets@) }
    }
}

impl PriceAggregator {
    /// The invariant of the store: what `new` establishes and `consume`
    /// keeps.
    #[verifier::type_invariant]
    pub open spec fn well_formed(self) -> bool {
        self@.well_formed()
    }

    /// An empty store whose observations stay fresh for `ttl` seconds.
    pub fn new(ttl: u64) -> (r: Self)
        ensures
            r@ == (AggregatorView { ttl: ttl as int, buckets: Seq::empty() }),
            r@.well_formed(),
    {
        assert(bucket_views(Seq::<Vec<MarketData>>::empty()) =~= Seq::empty());
        PriceAggregator { ttl, buckets: Vec::new() }
    }

    /// Takes an observation: it replaces the one that the store holds of the
    /// same ticker and source, or is added where there is none.
    pub fn consume(&mut self, market_data: &MarketData)
        ensures
            final(self)@ == old(self)@.consume(market_data@),
            final(self)@.well_formed(),
    {
        proof {
            use_type_invariant(&*self);
            lemma_consume_well_formed(self@, market_data@);
        }
        assert(bucket_views(Seq::<Vec<MarketData>>::empty()) =~= Seq::empty());
        let ghost before = self@;
        let mut taken: Vec<Vec<MarketData>> = Vec::new();
        std::mem::swap(&mut self.buckets, &mut taken);
        assert forall|i: int| 0 <= i < taken.len() implies (#[trigger] taken@[i]).len() > 0 by {
            assert(bucket_well_formed(before.buckets[i]));
        }
        store(&mut taken, market_data);
        std::mem::swap(&mut self.buckets, &mut taken);
    }

    /// One turn of the consumer of the queue: takes the observation that
    /// the queue handed over and asks for the next, or, where the queue has
    /// ended, leaves the store as it is and tells the consumer to stop.
    pub fn ingest(&mut self, item: Option<MarketData>) -> (more: bool)
        ensures
            final(self)@.well_formed(),
            more == item is Some,
            final(self)@ == match item {
                Some(market_data) => old(self)@.consume(market_data@),
                None => old(self)@,
            },
    {
        match item {
            Some(market_data) => {
                self.consume(&market_data);
                true
            },
            None => {
                proof {
                    use_type_invariant(&*self);
                }
                false
            },
        }
    }

    /// The staleness window in seconds.
    pub fn ttl(&self) -> (r: u64)
        ensures
            r == self@.ttl,
    {
        self.ttl
    }

    /// The snapshot at `now`, in seconds since the Unix epoch: one quote for
    /// every ticker that has a fresh observation, in the order in which the
    /// tickers were first seen. A ticker with one fresh observation is quoted
    /// by that observation, unchanged; one with several by their
    /// volume-weighted merge. Fails where the fresh observations of a ticker
    /// cannot be merged: their volumes add up to zero, or a weight or a
    /// weighted price does not fit a decimal. It does not fail where every
    /// such ticker can be weighed within some bounds.
    pub fn snapshot(&self, now: i64) -> (r: Result<Vec<MarketData>, Error>)
        ensures
            is_snapshot(self@, now as int, r),
            forall|scale: int, digits: nat| #[trigger]
                snapshot_can_be_weighed(self@.buckets, self@.ttl, now as int, scale, digits)
                    ==> r is Ok,
    {
        let mut quotes: Option<Vec<MarketData>> = Some(Vec::new());
        let mut i: usize = 0;
        while i < self.buckets.len()
            invariant
                i <= self.buckets.len(),
                match snapshot_of(self@.buckets.take(i as int), self@.ttl, now as int) {
                    Some(before) => quotes is Some && views_of(quotes->0@) == before,
                    None => quotes is None,
                },
                forall|scale: int, digits: nat| #[trigger]
                    snapshot_can_be_weighed(self@.buckets, self@.ttl, now as int, scale, digits)
                        ==> quotes is Some,
            decreases self.buckets.len() - i,
        {
            proof {
                assert(self@.buckets.take(i + 1).drop_last() == self@.buckets.take(i as int));
                assert(self@.buckets.take(i + 1).last() == views_of(self.buckets@[i as int]@));
                assert(self@.buckets[i as int] == views_of(self.buckets@[i as int]@));
            }
            if let Some(mut list) = quotes {
                let fresh = fresh_of(&self.buckets[i], self.ttl, now);
                if fresh.len() == 0 {
                    assert(views_of(list@) + Seq::<MarketDataView>::empty() == views_of(list@));
                    quotes = Some(list);
                } else if fresh.len() == 1 {
                    let ghost listed = views_of(list@);
                    list.push(fresh[0].clone());
                    assert(views_of(list@) == listed + seq![views_of(fresh@)[0]]);
                    quotes = Some(list);
                } else {
                    match merge(&fresh) {
                        Some(quote) => {
                            let ghost listed = views_of(list@);
                            list.push(quote);
                            assert(views_of(list@) == listed + seq![quote@]);
                            quotes = Some(list);
                        },
                        None => {
                            quotes = None;
                        },
                    }
                }
            }
            i += 1;
        }
        assert(self@.buckets.take(i as int) == self@.buckets);
        match quotes {
            Some(list) => Ok(list),
            None => Err(Error::AggregatorError(String::from_str("can't weigh prices by volume"))),
        }
    }

    /// The snapshot at the present moment, as the wall clock gives it. It
    /// exists for sure where the store can be weighed at that moment.
    pub fn aggregate(&self) -> (r: Result<Vec<MarketData>, Error>)
        ensures
            exists|now: i64| is_aggregate(self@, now as int, r),
    {
        let now = unix_now();
        let r = self.snapshot(now);
        assert(is_aggregate(self@, now as int, r));
        r
    }
}

/// The fresh observations of a bucket, copied in the bucket's order.
fn fresh_of(bucket: &Vec<MarketData>, ttl: u64, now: i64) -> (r: Vec<MarketData>)
    ensures
        views_of(r@) == fresh_entries(views_of(bucket@), ttl as int, now as int),
{
    let mut fresh: Vec<MarketData> = Vec::new();
    let mut i: usize = 0;
    while i < bucket.len()
        invariant
            i <= bucket.len(),
            views_of(fresh@) == fresh_entries(views_of(bucket@).take(i as int), ttl as int, now as int),
        decreases bucket.len() - i,
    {
        proof {
            assert(views_of(bucket@).take(i + 1).drop_last() == views_of(bucket@).take(i as int));
            assert(views_of(bucket@).take(i + 1).last() == bucket@[i as int]@);
        }
        let ghost listed = views_of(fresh@);
        if bucket[i].timestamp as i128 > now as i128 - ttl as i128 {
            fresh.push(bucket[i].clone());
            assert(views_of(fresh@) == listed.push(bucket@[i as int]@));
        }
        i += 1;
    }
    assert(views_of(bucket@).take(i as int) == views_of(bucket@));
    fresh
}

/// The sum of the volumes of some observations.
fn total_of(entries: &Vec<MarketData>) -> (r: Decimal)
    ensures
        r@ == total_volume(views_of(entries@)),
{
    let mut total = Decimal::zero();
    let mut i: usize = 0;
    while i < entries.len()
        invariant
            i <= entries.len(),
            total@ == total_volume(views_of(entries@).take(i as int)),
        decreases entries.len() - i,
    {
        proof {
            assert(views_of(entries@).take(i + 1).drop_last() == views_of(entries@).take(i as int));
            assert(views_of(entries@).take(i + 1).last() == entries@[i as int]@);
        }
        total = total.add(&entries[i].volume);
        i += 1;
    }
    assert(views_of(entries@).take(i as int) == views_of(entries@));
    total
}

/// The share of one observation in a merged price.
fn weigh(observation: &MarketData, total: &Decimal) -> (r: Option<Decimal>)
    ensures
        match weighted_price(observation@, total@) {
            Some(share) => r is Some && r->0@ == share,
            None => r is None,
        },
        forall|scale: int, digits: nat| #[trigger]
            share_is_tame(observation@, total@, scale, digits) ==> r is Some,
{
    let weight = observation.volume.checked_div(total);
    assert forall|scale: int, digits: nat| #[trigger]
        share_is_tame(observation@, total@, scale, digits) implies weighted_price(
        observation@,
        total@,
    ) is Some by {
        let quotient = observation@.volume.over(total@);
        assert(-pow10(digits) < total@.unscaled < pow10(digits));
        assert(-2 * scale <= quotient.scale <= scale + digits + 100);
    }
    match weight {
        Some(weight) => weight.checked_mul(&observation.price),
        None => None,
    }
}

/// The volume-weighted merge of the observations of one ticker.
pub fn merge(entries: &Vec<MarketData>) -> (r: Option<MarketData>)
    ensures
        match merged(views_of(entries@)) {
            Some(quote) => r is Some && r->0@ == quote,
            None => r is None,
        },
        forall|scale: int, digits: nat|
            entries.len() > 0 && #[trigger] can_be_weighed(views_of(entries@), scale, digits)
                ==> r is Some,
{
    if entries.len() == 0 {
        return None;
    }
    let total = total_of(entries);
    let ghost views = views_of(entries@);
    proof {
        assert forall|scale: int, digits: nat| #[trigger]
            can_be_weighed(views, scale, digits) implies 0 <= total@.scale <= scale by {
            lemma_total_volume_is_exact(views, scale);
        }
        assert forall|scale: int, digits: nat| #[trigger]
            can_be_weighed(views, scale, digits) implies share_is_tame(
            entries@[0]@,
            total@,
            scale,
            digits,
        ) by {
            assert(views[0] == entries@[0]@);
        }
    }
    let mut price = weigh(&entries[0], &total);
    let mut timestamp = entries[0].timestamp;
    let mut i: usize = 1;
    assert(views.take(1).len() == 1 && views.take(1)[0] == entries@[0]@);
    while i < entries.len()
        invariant
            1 <= i <= entries.len(),
            views == views_of(entries@),
            total@ == total_volume(views),
            timestamp == latest_timestamp(views.take(i as int)),
            match merged_price(views.take(i as int), total@) {
                Some(sum) => price is Some && price->0@ == sum,
                None => price is None,
            },
            forall|scale: int, digits: nat| #[trigger]
                can_be_weighed(views, scale, digits) ==> 0 <= total@.scale <= scale,
            forall|scale: int, digits: nat| #[trigger]
                can_be_weighed(views, scale, digits) ==> price is Some,
        decreases entries.len() - i,
    {
        proof {
            assert(views.take(i + 1).drop_last() == views.take(i as int));
            assert(views.take(i + 1).last() == entries@[i as int]@);
            assert forall|scale: int, digits: nat| #[trigger]
                can_be_weighed(views, scale, digits) implies share_is_tame(
                entries@[i as int]@,
                total@,
                scale,
                digits,
            ) by {
                assert(views[i as int] == entries@[i as int]@);
            }
        }
        price =
        match price {
            Some(sum) => match weigh(&entries[i], &total) {
                Some(share) => Some(sum.add(&share)),
                None => None,
            },
            None => None,
        };
        if entries[i].timestamp > timestamp {
            timestamp = entries[i].timestamp;
        }
        i += 1;
    }
    assert(views.take(i as int) == views);
    match price {
        Some(price) => Some(
            MarketData {
                provider: entries[0].provider.clone(),
                ticker: entries[0].ticker.clone(),
                price,
                volume: total,
                timestamp,
            },
        ),
        None => None,
    }
}

/// Puts an observation into the buckets of a store.
fn store(buckets: &mut Vec<Vec<MarketData>>, market_data: &MarketData)
    requires
        forall|i: int| 0 <= i < old(buckets).len() ==> (#[trigger] old(buckets)@[i]).len() > 0,
    ensures
        bucket_views(final(buckets)@) == buckets_with(bucket_views(old(buckets)@), market_data@),
{
    let ghost before = bucket_views(buckets@);
    proof {
        lemma_ticker_position(before, market_data.ticker@);
    }
    let at = find_bucket(buckets, &market_data.ticker);
    if at < buckets.len() {
        proof {
            lemma_source_position(before[at as int], market_data.provider@);
        }
        let slot = find_source(&buckets[at], &market_data.provider);
        if slot < buckets[at].len() {
            buckets[at].set(slot, market_data.clone());
        } else {
            buckets[at].push(market_data.clone());
        }
        assert(bucket_views(buckets@) =~~= buckets_with(before, market_data@));
    } else {
        let mut bucket: Vec<MarketData> = Vec::new();
        bucket.push(market_data.clone());
        buckets.push(bucket);
        assert(bucket_views(buckets@) =~~= buckets_with(before, market_data@));
    }
}

/// Finds the entry of a source in a bucket.
fn find_source(bucket: &Vec<MarketData>, provider: &String) -> (at: usize)
    ensures
        at == source_position(views_of(bucket@), provider@),
{
    proof {
        lemma_source_position(views_of(bucket@), provider@);
    }
    let ghost found = source_position(views_of(bucket@), provider@);
    let mut at: usize = 0;
    while at < bucket.len()
        invariant
            at <= bucket.len(),
            at <= found <= bucket.len(),
            found == source_position(views_of(bucket@), provider@),
            found < bucket.len() ==> views_of(bucket@)[found].provider == provider@,
            forall|k: int|
                0 <= k < found ==> (#[trigger] views_of(bucket@)[k]).provider != provider@,
        decreases bucket.len() - at,
    {
        assert(views_of(bucket@)[at as int] == bucket@[at as int]@);
        if bucket[at].provider == *provider {
            return at;
        }
        at += 1;
    }
    at
}

/// Finds the bucket of a ticker.
fn find_bucket(buckets: &Vec<Vec<MarketData>>, ticker: &String) -> (at: usize)
    requires
        forall|i: int| 0 <= i < buckets.len() ==> (#[trigger] buckets@[i]).len() > 0,
    ensures
        at == ticker_position(bucket_views(buckets@), ticker@),
{
    proof {
        lemma_ticker_position(bucket_views(buckets@), ticker@);
    }
    let ghost found = ticker_position(bucket_views(buckets@), ticker@);
    let mut at: usize = 0;
    while at < buckets.len()
        invariant
            at <= buckets.len(),
            at <= found <= buckets.len(),
            found == ticker_position(bucket_views(buckets@), ticker@),
            forall|i: int| 0 <= i < buckets.len() ==> (#[trigger] buckets@[i]).len() > 0,
            found < buckets.len() ==> bucket_views(buckets@)[found][0].ticker == ticker@,
            forall|k: int|
                0 <= k < found ==> !((#[trigger] bucket_views(buckets@)[k]).len() > 0
                    && bucket_views(buckets@)[k][0].ticker == ticker@),
        decreases buckets.len() - at,
    {
        assert(bucket_views(buckets@)[at as int][0] == buckets@[at as int]@[0]@);
        if buckets[at][0].ticker == *ticker {
            return at;
        }
        at += 1;
    }
    at
}

} // verus!
