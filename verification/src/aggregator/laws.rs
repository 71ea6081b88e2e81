//! What holds of the aggregation store, whatever it has taken.

use super::{
    bucket_quote, bucket_well_formed, bucket_with, buckets_well_formed, fresh_entries, is_fresh,
    is_snapshot, latest_timestamp, lemma_bucket_with_well_formed, lemma_consume_well_formed, lemma_source_position,
    lemma_ticker_position, snapshot_of, source_position, ticker_position, total_volume,
    AggregatorView,
};
use crate::collector::{views_of, MarketData, MarketDataView};
use crate::decimal::{lemma_plus_is_exact, pow10};
use crate::error::Error;
use vstd::prelude::*;

verus! {

impl AggregatorView {
    /// The observation that the store holds for a ticker and a source.
    pub open spec fn entry(self, ticker: Seq<char>, provider: Seq<char>) -> Option<
        MarketDataView,
    > {
        let at = ticker_position(self.buckets, ticker);
        if at < self.buckets.len() {
            let slot = source_position(self.buckets[at], provider);
            if slot < self.buckets[at].len() {
                Some(self.buckets[at][slot])
            } else {
                None
            }
        } else {
            None
        }
    }

    /// The store after it took the observations one after the other.
    pub open spec fn consume_all(self, observations: Seq<MarketDataView>) -> AggregatorView
        decreases observations.len(),
    {
        if observations.len() == 0 {
            self
        } else {
            self.consume_all(observations.drop_last()).consume(observations.last())
        }
    }
}

/// The first entry of a source is where nothing before it is of that source.
proof fn lemma_source_position_is(bucket: Seq<MarketDataView>, provider: Seq<char>, at: int)
    requires
        0 <= at <= bucket.len(),
        at < bucket.len() ==> bucket[at].provider == provider,
        forall|k: int| 0 <= k < at ==> (#[trigger] bucket[k]).provider != provider,
    ensures
        source_position(bucket, provider) == at,
{
    lemma_source_position(bucket, provider);
}

/// The first bucket of a ticker is where nothing before it is of that ticker.
proof fn lemma_ticker_position_is(buckets: Seq<Seq<MarketDataView>>, ticker: Seq<char>, at: int)
    requires
        0 <= at <= buckets.len(),
        at < buckets.len() ==> buckets[at].len() > 0 && buckets[at][0].ticker == ticker,
        forall|k: int|
            0 <= k < at ==> !((#[trigger] buckets[k]).len() > 0 && buckets[k][0].ticker == ticker),
    ensures
        ticker_position(buckets, ticker) == at,
{
    lemma_ticker_position(buckets, ticker);
}

/// In a well-formed store an observation stands where `entry` looks for it.
pub proof fn lemma_entry_is_unique(store: AggregatorView, i: int, j: int)
    requires
        store.well_formed(),
        0 <= i < store.buckets.len(),
        0 <= j < store.buckets[i].len(),
    ensures
        store.entry(store.buckets[i][j].ticker, store.buckets[i][j].provider) == Some(
            store.buckets[i][j],
        ),
{
    let found = store.buckets[i][j];
    assert(bucket_well_formed(store.buckets[i]));
    assert forall|k: int| 0 <= k < i implies !((#[trigger] store.buckets[k]).len() > 0
        && store.buckets[k][0].ticker == found.ticker) by {
        assert(bucket_well_formed(store.buckets[k]));
    }
    lemma_ticker_position_is(store.buckets, found.ticker, i);
    lemma_source_position_is(store.buckets[i], found.provider, j);
}

/// What a bucket holds for a source after it took an observation.
proof fn lemma_bucket_with_position(
    bucket: Seq<MarketDataView>,
    observation: MarketDataView,
    provider: Seq<char>,
)
    requires
        bucket_well_formed(bucket),
    ensures
        ({
            let after = bucket_with(bucket, observation);
            let slot = source_position(after, provider);
            let before = source_position(bucket, provider);
            if provider == observation.provider {
                slot < after.len() && after[slot] == observation
            } else if before < bucket.len() {
                slot < after.len() && after[slot] == bucket[before]
            } else {
                slot == after.len()
            }
        }),
{
    let after = bucket_with(bucket, observation);
    let own = source_position(bucket, observation.provider);
    let before = source_position(bucket, provider);
    lemma_source_position(bucket, observation.provider);
    lemma_source_position(bucket, provider);
    if provider == observation.provider {
        assert forall|k: int| 0 <= k < own implies (#[trigger] after[k]).provider != provider by {
            assert(after[k] == bucket[k]);
        }
        lemma_source_position_is(after, provider, own);
    } else if before < bucket.len() {
        assert forall|k: int| 0 <= k < before implies (#[trigger] after[k]).provider
            != provider by {
            if k != own {
                assert(after[k] == bucket[k]);
            }
        }
        assert(after[before] == bucket[before]);
        lemma_source_position_is(after, provider, before);
    } else {
        assert forall|k: int| 0 <= k < after.len() implies (#[trigger] after[k]).provider
            != provider by {
            if k != own {
                assert(after[k] == bucket[k]);
            }
        }
        lemma_source_position_is(after, provider, after.len() as int);
    }
}

/// The store is a map from ticker and source to the latest observation:
/// taking an observation sets the entry of its own ticker and source and
/// leaves every other entry as it was, so no update is lost.
pub proof fn lemma_consume_entry(
    store: AggregatorView,
    observation: MarketDataView,
    ticker: Seq<char>,
    provider: Seq<char>,
)
    requires
        store.well_formed(),
    ensures
        store.consume(observation).entry(ticker, provider) == if ticker == observation.ticker
            && provider == observation.provider {
            Some(observation)
        } else {
            store.entry(ticker, provider)
        },
{
    let buckets = store.buckets;
    let after = store.consume(observation).buckets;
    let own = ticker_position(buckets, observation.ticker);
    let before = ticker_position(buckets, ticker);
    lemma_ticker_position(buckets, observation.ticker);
    lemma_ticker_position(buckets, ticker);
    if own < buckets.len() {
        assert(bucket_well_formed(buckets[own]));
        lemma_bucket_with_well_formed(buckets[own], observation);
        assert forall|k: int| 0 <= k < after.len() implies (#[trigger] after[k]).len() > 0
            && after[k][0].ticker == buckets[k][0].ticker by {
            assert(bucket_well_formed(buckets[k]));
            if k != own {
                assert(after[k] == buckets[k]);
            }
        }
        lemma_ticker_position_is(after, ticker, before);
        if before == own {
            lemma_bucket_with_position(buckets[own], observation, provider);
        } else if before < buckets.len() {
            assert(after[before] == buckets[before]);
        }
    } else {
        if ticker == observation.ticker {
            assert forall|k: int| 0 <= k < buckets.len() implies !((#[trigger] after[k]).len() > 0
                && after[k][0].ticker == ticker) by {
                assert(after[k] == buckets[k]);
            }
            lemma_ticker_position_is(after, ticker, buckets.len() as int);
            lemma_source_position(seq![observation], provider);
            if provider != observation.provider {
                lemma_source_position_is(seq![observation], provider, 1);
            }
        } else if before < buckets.len() {
            assert forall|k: int| 0 <= k < before implies !((#[trigger] after[k]).len() > 0
                && after[k][0].ticker == ticker) by {
                assert(after[k] == buckets[k]);
            }
            assert(after[before] == buckets[before]);
            lemma_ticker_position_is(after, ticker, before);
        } else {
            assert forall|k: int| 0 <= k < after.len() implies !((#[trigger] after[k]).len() > 0
                && after[k][0].ticker == ticker) by {
                if k < buckets.len() {
                    assert(after[k] == buckets[k]);
                }
            }
            lemma_ticker_position_is(after, ticker, after.len() as int);
        }
    }
}

/// Nothing is ever evicted: a ticker and source that the store holds an
/// observation of keeps one, and no bucket gets shorter.
pub proof fn lemma_consume_never_forgets(
    store: AggregatorView,
    observation: MarketDataView,
    ticker: Seq<char>,
    provider: Seq<char>,
)
    requires
        store.well_formed(),
        store.entry(ticker, provider) is Some,
    ensures
        store.consume(observation).entry(ticker, provider) is Some,
        store.consume(observation).buckets.len() >= store.buckets.len(),
        forall|i: int|
            0 <= i < store.buckets.len() ==> (#[trigger] store.consume(
                observation,
            ).buckets[i]).len() >= store.buckets[i].len(),
{
    lemma_consume_entry(store, observation, ticker, provider);
    lemma_ticker_position(store.buckets, observation.ticker);
    let at = ticker_position(store.buckets, observation.ticker);
    if at < store.buckets.len() {
        lemma_source_position(store.buckets[at], observation.provider);
    }
}

/// Places are kept: tickers stay in the order in which they were first
/// seen, and so do the sources of each ticker. A new ticker or source goes to
/// the end. This is what makes the order of a snapshot, and the source that
/// a merged quote speaks for, the same on every run.
pub proof fn lemma_consume_keeps_places(store: AggregatorView, observation: MarketDataView)
    requires
        store.well_formed(),
    ensures
        forall|i: int, j: int|
            0 <= i < store.buckets.len() && 0 <= j < (#[trigger] store.buckets[i]).len() ==> {
                &&& i < store.consume(observation).buckets.len()
                &&& j < store.consume(observation).buckets[i].len()
                &&& (#[trigger] store.consume(observation).buckets[i][j]).ticker
                    == store.buckets[i][j].ticker
                &&& store.consume(observation).buckets[i][j].provider
                    == store.buckets[i][j].provider
            },
{
    let at = ticker_position(store.buckets, observation.ticker);
    lemma_ticker_position(store.buckets, observation.ticker);
    if at < store.buckets.len() {
        assert(bucket_well_formed(store.buckets[at]));
        lemma_source_position(store.buckets[at], observation.provider);
    }
}

/// An observation is stored whole: after the store took one, each of its
/// entries is that observation, field for field, or the entry that stood in
/// the same place before.
pub proof fn lemma_consume_stores_whole(store: AggregatorView, observation: MarketDataView)
    ensures
        forall|i: int, j: int|
            0 <= i < store.consume(observation).buckets.len() && 0 <= j < store.consume(
                observation,
            ).buckets[i].len() ==> (#[trigger] store.consume(observation).buckets[i][j])
                == observation || (i < store.buckets.len() && j < store.buckets[i].len()
                && store.consume(observation).buckets[i][j] == store.buckets[i][j]),
{
    let at = ticker_position(store.buckets, observation.ticker);
    lemma_ticker_position(store.buckets, observation.ticker);
    if at < store.buckets.len() {
        lemma_source_position(store.buckets[at], observation.provider);
    }
}

/// Every entry of a store is the whole of one of the observations that it
/// took, or stood there before them: no entry pairs the price of one
/// observation with the volume or the timestamp of another.
pub proof fn lemma_entries_were_consumed(store: AggregatorView, observations: Seq<MarketDataView>)
    ensures
        forall|i: int, j: int|
            0 <= i < store.consume_all(observations).buckets.len() && 0 <= j < store.consume_all(
                observations,
            ).buckets[i].len() ==> observations.contains(
                #[trigger] store.consume_all(observations).buckets[i][j],
            ) || (i < store.buckets.len() && j < store.buckets[i].len() && store.consume_all(
                observations,
            ).buckets[i][j] == store.buckets[i][j]),
    decreases observations.len(),
{
    if observations.len() > 0 {
        let rest = observations.drop_last();
        let before = store.consume_all(rest);
        let after = store.consume_all(observations);
        lemma_entries_were_consumed(store, rest);
        lemma_consume_stores_whole(before, observations.last());
        assert forall|i: int, j: int|
            0 <= i < after.buckets.len() && 0 <= j < after.buckets[i].len() implies observations.contains(
            #[trigger] after.buckets[i][j],
        ) || (i < store.buckets.len() && j < store.buckets[i].len() && after.buckets[i][j]
            == store.buckets[i][j]) by {
            let entry = after.buckets[i][j];
            if entry == observations.last() {
                assert(observations[observations.len() - 1] == entry);
            } else {
                assert(entry == before.buckets[i][j]);
                if rest.contains(entry) {
                    let w = choose|w: int| 0 <= w < rest.len() && rest[w] == entry;
                    assert(observations[w] == entry);
                }
            }
        }
    }
}

/// Whatever the order in which producers had their observations applied, a
/// quote that a snapshot builds from the single fresh observation of a
/// ticker is the whole of one observation that the store took.
pub proof fn lemma_single_quote_was_consumed(
    ttl: int,
    observations: Seq<MarketDataView>,
    now: int,
    i: int,
    j: int,
)
    requires
        ttl >= 0,
        ({
            let store = (AggregatorView { ttl, buckets: Seq::empty() }).consume_all(observations);
            &&& store.snapshot(now) is Some
            &&& 0 <= i < store.buckets.len()
            &&& 0 <= j < store.buckets[i].len()
            &&& is_fresh(store.buckets[i][j], ttl, now)
            &&& forall|other: int|
                0 <= other < store.buckets[i].len() && other != j ==> !is_fresh(
                    #[trigger] store.buckets[i][other],
                    ttl,
                    now,
                )
        }),
    ensures
        ({
            let store = (AggregatorView { ttl, buckets: Seq::empty() }).consume_all(observations);
            &&& observations.contains(store.buckets[i][j])
            &&& store.snapshot(now)->0.contains(store.buckets[i][j])
        }),
{
    let empty = AggregatorView { ttl, buckets: Seq::empty() };
    let store = empty.consume_all(observations);
    lemma_consume_all_well_formed(empty, observations);
    lemma_consume_all_keeps_ttl(empty, observations);
    lemma_entries_were_consumed(empty, observations);
    lemma_single_fresh_observation_is_quoted(store, now, i, j);
}

/// Taking observations does not change the staleness window.
pub proof fn lemma_consume_all_keeps_ttl(store: AggregatorView, observations: Seq<MarketDataView>)
    ensures
        store.consume_all(observations).ttl == store.ttl,
    decreases observations.len(),
{
    if observations.len() > 0 {
        lemma_consume_all_keeps_ttl(store, observations.drop_last());
    }
}

/// Taking observations one after the other keeps the store well formed.
pub proof fn lemma_consume_all_well_formed(store: AggregatorView, observations: Seq<MarketDataView>)
    requires
        store.well_formed(),
    ensures
        store.consume_all(observations).well_formed(),
    decreases observations.len(),
{
    if observations.len() > 0 {
        lemma_consume_all_well_formed(store, observations.drop_last());
        lemma_consume_well_formed(store.consume_all(observations.drop_last()), observations.last());
    }
}

/// After a run of observations of one ticker and one source the store holds,
/// for that ticker and source, the last of them and nothing else: price,
/// volume and timestamp are replaced together.
pub proof fn lemma_last_observation_wins(store: AggregatorView, observations: Seq<MarketDataView>)
    requires
        store.well_formed(),
        observations.len() > 0,
        forall|k: int|
            0 <= k < observations.len() ==> (#[trigger] observations[k]).ticker
                == observations[0].ticker && observations[k].provider == observations[0].provider,
    ensures
        ({
            let after = store.consume_all(observations);
            let last = observations.last();
            &&& after.well_formed()
            &&& after.entry(last.ticker, last.provider) == Some(last)
            &&& forall|i: int, j: int|
                0 <= i < after.buckets.len() && 0 <= j < after.buckets[i].len() && (
                #[trigger] after.buckets[i][j]).ticker == last.ticker && after.buckets[i][j].provider
                    == last.provider ==> after.buckets[i][j] == last
        }),
{
    let after = store.consume_all(observations);
    let last = observations.last();
    lemma_consume_all_well_formed(store, observations);
    lemma_consume_all_well_formed(store, observations.drop_last());
    lemma_consume_entry(
        store.consume_all(observations.drop_last()),
        last,
        last.ticker,
        last.provider,
    );
    assert forall|i: int, j: int|
        0 <= i < after.buckets.len() && 0 <= j < after.buckets[i].len() && (
        #[trigger] after.buckets[i][j]).ticker == last.ticker && after.buckets[i][j].provider
            == last.provider implies after.buckets[i][j] == last by {
        lemma_entry_is_unique(after, i, j);
    }
}

/// The fresh observations of a bucket are fresh and come from the bucket,
/// and every fresh observation of the bucket is among them.
pub proof fn lemma_fresh_entries(bucket: Seq<MarketDataView>, ttl: int, now: int)
    ensures
        forall|k: int|
            0 <= k < fresh_entries(bucket, ttl, now).len() ==> is_fresh(
                #[trigger] fresh_entries(bucket, ttl, now)[k],
                ttl,
                now,
            ) && bucket.contains(fresh_entries(bucket, ttl, now)[k]),
        forall|j: int|
            0 <= j < bucket.len() && is_fresh(#[trigger] bucket[j], ttl, now) ==> fresh_entries(
                bucket,
                ttl,
                now,
            ).contains(bucket[j]),
    decreases bucket.len(),
{
    let fresh = fresh_entries(bucket, ttl, now);
    if bucket.len() > 0 {
        let rest = bucket.drop_last();
        let before = fresh_entries(rest, ttl, now);
        lemma_fresh_entries(rest, ttl, now);
        assert forall|k: int| 0 <= k < fresh.len() implies is_fresh(#[trigger] fresh[k], ttl, now)
            && bucket.contains(fresh[k]) by {
            if k < before.len() {
                assert(fresh[k] == before[k]);
                assert(rest.contains(before[k]));
                let w = choose|w: int| 0 <= w < rest.len() && rest[w] == before[k];
                assert(bucket[w] == fresh[k]);
            } else {
                assert(bucket[bucket.len() - 1] == fresh[k]);
            }
        }
        assert forall|j: int| 0 <= j < bucket.len() && is_fresh(
            #[trigger] bucket[j],
            ttl,
            now,
        ) implies fresh.contains(bucket[j]) by {
            if j < rest.len() {
                assert(rest[j] == bucket[j]);
                assert(before.contains(rest[j]));
                let w = choose|w: int| 0 <= w < before.len() && before[w] == rest[j];
                assert(fresh[w] == bucket[j]);
            } else {
                assert(fresh[fresh.len() - 1] == bucket[j]);
            }
        }
    }
}

/// A bucket without a fresh observation has no fresh entries.
pub proof fn lemma_no_fresh_entries(bucket: Seq<MarketDataView>, ttl: int, now: int)
    requires
        forall|j: int| 0 <= j < bucket.len() ==> !is_fresh(#[trigger] bucket[j], ttl, now),
    ensures
        fresh_entries(bucket, ttl, now) == Seq::<MarketDataView>::empty(),
    decreases bucket.len(),
{
    if bucket.len() > 0 {
        let rest = bucket.drop_last();
        assert forall|j: int| 0 <= j < rest.len() implies !is_fresh(
            #[trigger] rest[j],
            ttl,
            now,
        ) by {
            assert(rest[j] == bucket[j]);
        }
        lemma_no_fresh_entries(rest, ttl, now);
        assert(!is_fresh(bucket[bucket.len() - 1], ttl, now));
    }
}

/// A bucket with one fresh observation has that observation as its only
/// fresh entry.
pub proof fn lemma_one_fresh_entry(bucket: Seq<MarketDataView>, ttl: int, now: int, at: int)
    requires
        0 <= at < bucket.len(),
        is_fresh(bucket[at], ttl, now),
        forall|j: int|
            0 <= j < bucket.len() && j != at ==> !is_fresh(#[trigger] bucket[j], ttl, now),
    ensures
        fresh_entries(bucket, ttl, now) == seq![bucket[at]],
    decreases bucket.len(),
{
    let rest = bucket.drop_last();
    if at == bucket.len() - 1 {
        assert forall|j: int| 0 <= j < rest.len() implies !is_fresh(
            #[trigger] rest[j],
            ttl,
            now,
        ) by {
            assert(rest[j] == bucket[j]);
        }
        lemma_no_fresh_entries(rest, ttl, now);
        assert(fresh_entries(bucket, ttl, now) =~= seq![bucket[at]]);
    } else {
        assert forall|j: int| 0 <= j < rest.len() && j != at implies !is_fresh(
            #[trigger] rest[j],
            ttl,
            now,
        ) by {
            assert(rest[j] == bucket[j]);
        }
        assert(rest[at] == bucket[at]);
        assert(!is_fresh(bucket[bucket.len() - 1], ttl, now));
        lemma_one_fresh_entry(rest, ttl, now, at);
    }
}

/// A well-formed bucket adds at most one quote to a snapshot, of its own
/// ticker, and adds none exactly where none of its observations is fresh.
pub proof fn lemma_bucket_quote(bucket: Seq<MarketDataView>, ttl: int, now: int)
    requires
        bucket_well_formed(bucket),
        bucket_quote(bucket, ttl, now) is Some,
    ensures
        ({
            let quote = bucket_quote(bucket, ttl, now)->0;
            &&& quote.len() <= 1
            &&& quote.len() == 0 <==> forall|j: int|
                0 <= j < bucket.len() ==> !is_fresh(#[trigger] bucket[j], ttl, now)
            &&& quote.len() == 1 ==> quote[0].ticker == bucket[0].ticker
        }),
{
    let fresh = fresh_entries(bucket, ttl, now);
    lemma_fresh_entries(bucket, ttl, now);
    if fresh.len() > 0 {
        assert(bucket.contains(fresh[0]));
        let w = choose|w: int| 0 <= w < bucket.len() && bucket[w] == fresh[0];
        assert(is_fresh(bucket[w], ttl, now));
        assert(bucket[w].ticker == bucket[0].ticker);
    } else {
        assert forall|j: int| 0 <= j < bucket.len() implies !is_fresh(
            #[trigger] bucket[j],
            ttl,
            now,
        ) by {
            if is_fresh(bucket[j], ttl, now) {
                assert(fresh.contains(bucket[j]));
            }
        }
    }
}

/// A snapshot holds the quote of each bucket.
pub proof fn lemma_snapshot_holds_quote(
    buckets: Seq<Seq<MarketDataView>>,
    ttl: int,
    now: int,
    at: int,
)
    requires
        snapshot_of(buckets, ttl, now) is Some,
        0 <= at < buckets.len(),
    ensures
        bucket_quote(buckets[at], ttl, now) is Some,
        forall|k: int|
            0 <= k < bucket_quote(buckets[at], ttl, now)->0.len() ==> snapshot_of(
                buckets,
                ttl,
                now,
            )->0.contains(#[trigger] bucket_quote(buckets[at], ttl, now)->0[k]),
    decreases buckets.len(),
{
    let rest = buckets.drop_last();
    let before = snapshot_of(rest, ttl, now)->0;
    let last = bucket_quote(buckets.last(), ttl, now)->0;
    let all = snapshot_of(buckets, ttl, now)->0;
    assert(all == before + last);
    if at == buckets.len() - 1 {
        assert forall|k: int| 0 <= k < last.len() implies all.contains(#[trigger] last[k]) by {
            assert(all[before.len() + k] == last[k]);
        }
    } else {
        assert(rest[at] == buckets[at]);
        lemma_snapshot_holds_quote(rest, ttl, now, at);
        let quote = bucket_quote(buckets[at], ttl, now)->0;
        assert forall|k: int| 0 <= k < quote.len() implies all.contains(#[trigger] quote[k]) by {
            assert(before.contains(quote[k]));
            let w = choose|w: int| 0 <= w < before.len() && before[w] == quote[k];
            assert(all[w] == quote[k]);
        }
    }
}

/// Every quote of a snapshot is the quote of one of the buckets.
pub proof fn lemma_snapshot_quote_origin(
    buckets: Seq<Seq<MarketDataView>>,
    ttl: int,
    now: int,
    k: int,
) -> (at: int)
    requires
        snapshot_of(buckets, ttl, now) is Some,
        0 <= k < snapshot_of(buckets, ttl, now)->0.len(),
    ensures
        0 <= at < buckets.len(),
        bucket_quote(buckets[at], ttl, now) is Some,
        bucket_quote(buckets[at], ttl, now)->0.contains(snapshot_of(buckets, ttl, now)->0[k]),
    decreases buckets.len(),
{
    let rest = buckets.drop_last();
    let before = snapshot_of(rest, ttl, now)->0;
    let last = bucket_quote(buckets.last(), ttl, now)->0;
    let all = snapshot_of(buckets, ttl, now)->0;
    assert(all == before + last);
    if k < before.len() {
        let at = lemma_snapshot_quote_origin(rest, ttl, now, k);
        assert(rest[at] == buckets[at]);
        assert(all[k] == before[k]);
        at
    } else {
        assert(all[k] == last[k - before.len()]);
        buckets.len() - 1
    }
}

/// A ticker without a fresh observation is left out of the snapshot.
pub proof fn lemma_stale_ticker_is_omitted(store: AggregatorView, now: int, ticker: Seq<char>)
    requires
        store.well_formed(),
        store.snapshot(now) is Some,
        forall|i: int, j: int|
            0 <= i < store.buckets.len() && 0 <= j < store.buckets[i].len() && (
            #[trigger] store.buckets[i][j]).ticker == ticker ==> !is_fresh(
                store.buckets[i][j],
                store.ttl,
                now,
            ),
    ensures
        forall|k: int|
            0 <= k < store.snapshot(now)->0.len() ==> (#[trigger] store.snapshot(now)->0[k]).ticker
                != ticker,
{
    let quotes = store.snapshot(now)->0;
    assert forall|k: int| 0 <= k < quotes.len() implies (#[trigger] quotes[k]).ticker
        != ticker by {
        let at = lemma_snapshot_quote_origin(store.buckets, store.ttl, now, k);
        let bucket = store.buckets[at];
        let quote = bucket_quote(bucket, store.ttl, now)->0;
        assert(bucket_well_formed(bucket));
        lemma_bucket_quote(bucket, store.ttl, now);
        assert(quote.contains(quotes[k]));
        assert(quote[0] == quotes[k]);
        if quotes[k].ticker == ticker {
            assert forall|j: int| 0 <= j < bucket.len() implies !is_fresh(
                #[trigger] bucket[j],
                store.ttl,
                now,
            ) by {
                assert(store.buckets[at][j].ticker == ticker);
            }
        }
    }
}

/// A ticker with exactly one fresh observation is quoted by that
/// observation, unchanged in every field, and by nothing else.
pub proof fn lemma_single_fresh_observation_is_quoted(
    store: AggregatorView,
    now: int,
    i: int,
    j: int,
)
    requires
        store.well_formed(),
        store.snapshot(now) is Some,
        0 <= i < store.buckets.len(),
        0 <= j < store.buckets[i].len(),
        is_fresh(store.buckets[i][j], store.ttl, now),
        forall|other: int|
            0 <= other < store.buckets[i].len() && other != j ==> !is_fresh(
                #[trigger] store.buckets[i][other],
                store.ttl,
                now,
            ),
    ensures
        store.snapshot(now)->0.contains(store.buckets[i][j]),
        forall|k: int|
            0 <= k < store.snapshot(now)->0.len() && (#[trigger] store.snapshot(now)->0[k]).ticker
                == store.buckets[i][j].ticker ==> store.snapshot(now)->0[k] == store.buckets[i][j],
{
    let quotes = store.snapshot(now)->0;
    let found = store.buckets[i][j];
    assert(bucket_well_formed(store.buckets[i]));
    lemma_one_fresh_entry(store.buckets[i], store.ttl, now, j);
    lemma_snapshot_holds_quote(store.buckets, store.ttl, now, i);
    assert(bucket_quote(store.buckets[i], store.ttl, now)->0[0] == found);
    assert forall|k: int| 0 <= k < quotes.len() && (#[trigger] quotes[k]).ticker
        == found.ticker implies quotes[k] == found by {
        let at = lemma_snapshot_quote_origin(store.buckets, store.ttl, now, k);
        let quote = bucket_quote(store.buckets[at], store.ttl, now)->0;
        assert(bucket_well_formed(store.buckets[at]));
        lemma_bucket_quote(store.buckets[at], store.ttl, now);
        assert(quote.contains(quotes[k]));
        assert(quote[0] == quotes[k]);
        if at != i {
            assert(store.buckets[at][0].ticker != store.buckets[i][0].ticker);
        }
    }
}

/// A snapshot quotes every ticker that has a fresh observation, and no
/// ticker twice.
pub proof fn lemma_one_quote_per_ticker(buckets: Seq<Seq<MarketDataView>>, ttl: int, now: int)
    requires
        buckets_well_formed(buckets),
        snapshot_of(buckets, ttl, now) is Some,
    ensures
        forall|i: int, j: int|
            0 <= i < buckets.len() && 0 <= j < buckets[i].len() && is_fresh(
                #[trigger] buckets[i][j],
                ttl,
                now,
            ) ==> exists|k: int|
                0 <= k < snapshot_of(buckets, ttl, now)->0.len() && (#[trigger] snapshot_of(
                    buckets,
                    ttl,
                    now,
                )->0[k]).ticker == buckets[i][j].ticker,
        forall|k: int, l: int|
            0 <= k < l < snapshot_of(buckets, ttl, now)->0.len() ==> (#[trigger] snapshot_of(
                buckets,
                ttl,
                now,
            )->0[k]).ticker != (#[trigger] snapshot_of(buckets, ttl, now)->0[l]).ticker,
    decreases buckets.len(),
{
    let all = snapshot_of(buckets, ttl, now)->0;
    assert forall|i: int, j: int|
        0 <= i < buckets.len() && 0 <= j < buckets[i].len() && is_fresh(
            #[trigger] buckets[i][j],
            ttl,
            now,
        ) implies exists|k: int| 0 <= k < all.len() && (#[trigger] all[k]).ticker
        == buckets[i][j].ticker by {
        assert(bucket_well_formed(buckets[i]));
        lemma_snapshot_holds_quote(buckets, ttl, now, i);
        lemma_bucket_quote(buckets[i], ttl, now);
        let quote = bucket_quote(buckets[i], ttl, now)->0;
        assert(all.contains(quote[0]));
        let k = choose|k: int| 0 <= k < all.len() && all[k] == quote[0];
        assert(all[k].ticker == buckets[i][j].ticker);
    }
    if buckets.len() > 0 {
        let rest = buckets.drop_last();
        let before = snapshot_of(rest, ttl, now)->0;
        let last = bucket_quote(buckets.last(), ttl, now)->0;
        assert(all == before + last);
        assert forall|i: int| 0 <= i < rest.len() implies bucket_well_formed(
            #[trigger] rest[i],
        ) by {
            assert(rest[i] == buckets[i]);
        }
        assert forall|i: int, j: int| 0 <= i < j < rest.len() implies (#[trigger] rest[i])[0].ticker
            != (#[trigger] rest[j])[0].ticker by {
            assert(rest[i] == buckets[i]);
            assert(rest[j] == buckets[j]);
        }
        lemma_one_quote_per_ticker(rest, ttl, now);
        assert(bucket_well_formed(buckets[buckets.len() - 1]));
        lemma_bucket_quote(buckets.last(), ttl, now);
        assert forall|k: int, l: int| 0 <= k < l < all.len() implies (#[trigger] all[k]).ticker != (
        #[trigger] all[l]).ticker by {
            assert(all[k] == before[k]);
            if l < before.len() {
                assert(all[l] == before[l]);
            } else {
                assert(all[l] == last[0]);
                let at = lemma_snapshot_quote_origin(rest, ttl, now, k);
                assert(rest[at] == buckets[at]);
                assert(bucket_well_formed(buckets[at]));
                lemma_bucket_quote(buckets[at], ttl, now);
                let quote = bucket_quote(buckets[at], ttl, now)->0;
                assert(quote.contains(before[k]));
                assert(quote[0] == before[k]);
                assert(buckets[at][0].ticker != buckets[buckets.len() - 1][0].ticker);
            }
        }
    }
}

/// The boundary of the staleness window is strict: an observation aged
/// exactly `ttl` seconds is stale, one a second younger is fresh, and no
/// bucket counts the first among its fresh entries.
pub proof fn lemma_boundary_is_stale(bucket: Seq<MarketDataView>, ttl: int, now: int)
    ensures
        forall|observation: MarketDataView|
            observation.timestamp == now - ttl ==> !#[trigger] is_fresh(observation, ttl, now),
        forall|observation: MarketDataView|
            observation.timestamp == now - ttl + 1 ==> #[trigger] is_fresh(observation, ttl, now),
        forall|k: int|
            0 <= k < fresh_entries(bucket, ttl, now).len() ==> (#[trigger] fresh_entries(
                bucket,
                ttl,
                now,
            )[k]).timestamp != now - ttl,
{
    lemma_fresh_entries(bucket, ttl, now);
}

/// Reading is pure: two snapshots of one store at one moment end alike, with
/// the same quotes or with the same error.
pub proof fn lemma_snapshot_is_repeatable(
    store: AggregatorView,
    now: int,
    first: Result<Vec<MarketData>, Error>,
    second: Result<Vec<MarketData>, Error>,
)
    requires
        is_snapshot(store, now, first),
        is_snapshot(store, now, second),
    ensures
        first is Ok <==> second is Ok,
        first is Ok ==> views_of(first->Ok_0@) == views_of(second->Ok_0@),
        first is Err ==> first->Err_0.detail() == second->Err_0.detail() && first->Err_0
            is AggregatorError && second->Err_0 is AggregatorError,
{
}

/// The sum of the volumes of some observations, each aligned to `scale`.
pub open spec fn aligned_volumes(entries: Seq<MarketDataView>, scale: int) -> int
    decreases entries.len(),
{
    if entries.len() == 0 {
        0
    } else {
        aligned_volumes(entries.drop_last(), scale) + entries.last().volume.aligned(scale)
    }
}

/// The merged volume is exact: at any scale that is not negative and that
/// every volume fits, the total is the sum of the volumes, with no rounding.
pub proof fn lemma_total_volume_is_exact(entries: Seq<MarketDataView>, scale: int)
    requires
        0 <= scale,
        forall|k: int| 0 <= k < entries.len() ==> (#[trigger] entries[k]).volume.scale <= scale,
    ensures
        0 <= total_volume(entries).scale <= scale,
        total_volume(entries).aligned(scale) == aligned_volumes(entries, scale),
    decreases entries.len(),
{
    if entries.len() == 0 {
        assert(pow10(0) == 1);
        assert(0 * pow10(scale as nat) == 0);
    } else {
        let rest = entries.drop_last();
        assert forall|k: int| 0 <= k < rest.len() implies (#[trigger] rest[k]).volume.scale
            <= scale by {
            assert(rest[k] == entries[k]);
        }
        lemma_total_volume_is_exact(rest, scale);
        assert(entries[entries.len() - 1].volume.scale <= scale);
        lemma_plus_is_exact(total_volume(rest), entries.last().volume, scale);
    }
}

/// The timestamp of a merged quote is that of one of the merged
/// observations, and none of them is later.
pub proof fn lemma_latest_timestamp(entries: Seq<MarketDataView>)
    requires
        entries.len() > 0,
    ensures
        forall|k: int|
            0 <= k < entries.len() ==> (#[trigger] entries[k]).timestamp <= latest_timestamp(
                entries,
            ),
        exists|k: int|
            0 <= k < entries.len() && (#[trigger] entries[k]).timestamp == latest_timestamp(
                entries,
            ),
    decreases entries.len(),
{
    if entries.len() == 1 {
        assert(entries[0].timestamp == latest_timestamp(entries));
    } else {
        let rest = entries.drop_last();
        lemma_latest_timestamp(rest);
        assert forall|k: int| 0 <= k < entries.len() implies (#[trigger] entries[k]).timestamp
            <= latest_timestamp(entries) by {
            if k < rest.len() {
                assert(rest[k] == entries[k]);
            }
        }
        let w = choose|w: int|
            0 <= w < rest.len() && (#[trigger] rest[w]).timestamp == latest_timestamp(rest);
        assert(rest[w] == entries[w]);
        if entries.last().timestamp > latest_timestamp(rest) {
            assert(entries[entries.len() - 1].timestamp == latest_timestamp(entries));
        } else {
            assert(entries[w].timestamp == latest_timestamp(entries));
        }
    }
}

} // verus!
