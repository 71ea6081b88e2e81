//! Market observations and the sources that produce them.

pub mod binance;
pub mod bitfinex;
pub mod cycle;

use crate::clock::unix_now;
use crate::collector::binance::BinanceMarketDataCollector;
use crate::collector::bitfinex::BitfinexMarketDataCollector;
use crate::config::{
    collector_config_views, CollectorConfig, CollectorConfigView, Ticker, TickerView,
};
use crate::decimal::{Decimal, DecimalValue};
use crate::error::Error;
use std::time::Duration;
use vstd::prelude::*;
use vstd::std_specs::cmp::PartialEqSpecImpl;
use vstd::string::*;

verus! {

/// One source's reported price and volume for one ticker at one instant.
/// `==` compares field by field, price and volume as numbers.
#[derive(Debug)]
pub struct MarketData {
    pub provider: String,
    pub ticker: String,
    pub price: Decimal,
    pub volume: Decimal,
    pub timestamp: i64,
}

/// The mathematical content of a [`MarketData`].
pub struct MarketDataView {
    pub provider: Seq<char>,
    pub ticker: Seq<char>,
    pub price: DecimalValue,
    pub volume: DecimalValue,
    pub timestamp: int,
}

impl View for MarketData {
    type V = MarketDataView;

    open spec fn view(&self) -> MarketDataView {
        MarketDataView {
            provider: self.provider@,
            ticker: self.ticker@,
            price: self.price@,
            volume: self.volume@,
            timestamp: self.timestamp as int,
        }
    }
}

impl MarketDataView {
    /// The two observations agree in source, ticker and timestamp, and their
    /// prices and volumes stand for the same numbers.
    pub open spec fn same_as(self, other: MarketDataView) -> bool {
        &&& self.provider == other.provider
        &&& self.ticker == other.ticker
        &&& self.price.same_number(other.price)
        &&& self.volume.same_number(other.volume)
        &&& self.timestamp == other.timestamp
    }
}

impl PartialEq for MarketData {
    fn eq(&self, other: &MarketData) -> (r: bool) {
        self.provider == other.provider && self.ticker == other.ticker && self.price == other.price
            && self.volume == other.volume && self.timestamp == other.timestamp
    }
}

impl PartialEqSpecImpl for MarketData {
    open spec fn obeys_eq_spec() -> bool {
        true
    }

    open spec fn eq_spec(&self, other: &MarketData) -> bool {
        self@.same_as(other@)
    }
}

impl Clone for MarketData {
    fn clone(&self) -> (r: Self)
        ensures
            r@ == self@,
    {
        MarketData {
            provider: self.provider.clone(),
            ticker: self.ticker.clone(),
            price: self.price.clone(),
            volume: self.volume.clone(),
            timestamp: self.timestamp,
        }
    }
}

/// The contents of a sequence of observations.
pub open spec fn views_of(entries: Seq<MarketData>) -> Seq<MarketDataView> {
    Seq::new(entries.len(), |i: int| entries[i]@)
}

/// A snapshot as it is handed to the log.
#[derive(Debug)]
pub struct MarketDataVec {
    pub prices: Vec<MarketData>,
}

impl Clone for MarketDataVec {
    fn clone(&self) -> (r: Self)
        ensures
            views_of(r.prices@) == views_of(self.prices@),
    {
        let mut prices: Vec<MarketData> = Vec::new();
        let mut i: usize = 0;
        while i < self.prices.len()
            invariant
                i <= self.prices.len(),
                prices.len() == i,
                forall|k: int| 0 <= k < i ==> prices@[k]@ == self.prices@[k]@,
            decreases self.prices.len() - i,
        {
            prices.push(self.prices[i].clone());
            i += 1;
        }
        assert(views_of(prices@) =~= views_of(self.prices@));
        MarketDataVec { prices }
    }
}

/// The observation that `provider` reports for a ticker.
pub open spec fn reported(
    provider: Seq<char>,
    ticker: TickerView,
    price: DecimalValue,
    volume: DecimalValue,
    timestamp: int,
) -> MarketDataView {
    MarketDataView { provider, ticker: ticker.label(), price, volume, timestamp }
}

/// Builds the observation that `provider` reports for a ticker: it goes by
/// the ticker's alias, or by its symbol where the alias is blank.
pub fn observation(
    provider: &str,
    ticker: &Ticker,
    price: Decimal,
    volume: Decimal,
    timestamp: i64,
) -> (r: MarketData)
    ensures
        r@ == reported(provider@, ticker@, price@, volume@, timestamp as int),
{
    MarketData {
        provider: String::from_str(provider),
        ticker: ticker.label(),
        price,
        volume,
        timestamp,
    }
}

/// The message of the error for a price that cannot be inverted.
pub open spec fn not_invertible() -> Seq<char> {
    "can't invert price"@
}

/// The price to report for a ticker: the last price, or its reciprocal
/// where the ticker is inverted. Fails only for an inverted ticker, where
/// the last price is not invertible or the reciprocal does not fit a
/// decimal. The reciprocal itself is `bigdecimal`'s approximation, of which
/// [`Decimal::inverse`] says why it is not stated.
pub fn reported_price(ticker: &Ticker, last_price: Decimal) -> (r: Result<Decimal, Error>)
    ensures
        !ticker.inverted ==> r is Ok && r->Ok_0 == last_price,
        ticker.inverted && !last_price.invertible() ==> r is Err,
        ticker.inverted && last_price.invertible() && (last_price@.unscaled == 0
            || last_price@.is_one()) ==> r is Ok && r->Ok_0@ == last_price@,
        r is Err ==> ticker.inverted && r->Err_0 is CollectorError && r->Err_0.detail()
            == not_invertible(),
{
    if ticker.inverted {
        inverted_price(last_price.inverse())
    } else {
        Ok(last_price)
    }
}

/// The price of an inverted ticker, given what came of inverting its last
/// price: the reciprocal, or the error for a price whose reciprocal does not
/// fit a decimal.
pub fn inverted_price(reciprocal: Option<Decimal>) -> (r: Result<Decimal, Error>)
    ensures
        match reciprocal {
            Some(price) => r is Ok && r->Ok_0 == price,
            None => r is Err && r->Err_0 is CollectorError && r->Err_0.detail()
                == not_invertible(),
        },
{
    match reciprocal {
        Some(price) => Ok(price),
        None => Err(Error::CollectorError(String::from_str("can't invert price"))),
    }
}

/// The observation of a ticker at the present moment, as the wall clock
/// gives it: the price is the last price, inverted where the ticker asks for
/// it.
pub fn observe(provider: &str, ticker: &Ticker, last_price: Decimal, volume: Decimal) -> (r:
    Result<MarketData, Error>)
    ensures
        !ticker.inverted ==> r is Ok && r->Ok_0@.price == last_price@,
        ticker.inverted && !last_price.invertible() ==> r is Err,
        ticker.inverted && last_price.invertible() && (last_price@.unscaled == 0
            || last_price@.is_one()) ==> r is Ok && r->Ok_0@.price == last_price@,
        r is Ok ==> r->Ok_0@.provider == provider@ && r->Ok_0@.ticker == ticker@.label()
            && r->Ok_0@.volume == volume@,
        r is Err ==> ticker.inverted && r->Err_0 is CollectorError && r->Err_0.detail()
            == not_invertible(),
{
    match reported_price(ticker, last_price) {
        Ok(price) => Ok(observation(provider, ticker, price, volume, unix_now())),
        Err(e) => Err(e),
    }
}

/// What a collector is made of: where its source is reached, the tickers it
/// polls and its pauses.
pub struct CollectorView {
    pub endpoint: Seq<char>,
    pub tickers: Seq<TickerView>,
    pub batch_delay: Duration,
    pub request_delay: Duration,
}

impl CollectorView {
    /// The collector that a configuration describes.
    pub open spec fn of(config: CollectorConfigView) -> CollectorView {
        CollectorView {
            endpoint: config.endpoint,
            tickers: config.tickers,
            batch_delay: config.delay.batch,
            request_delay: config.delay.request,
        }
    }
}

/// A collector of one of the known sources.
#[derive(Debug)]
pub enum Collector {
    Binance(BinanceMarketDataCollector),
    Bitfinex(BitfinexMarketDataCollector),
}

impl Clone for Collector {
    fn clone(&self) -> (r: Self)
        ensures
            r@ == self@,
    {
        match self {
            Collector::Binance(c) => Collector::Binance(c.clone()),
            Collector::Bitfinex(c) => Collector::Bitfinex(c.clone()),
        }
    }
}

/// The mathematical content of a [`Collector`].
pub enum SourceView {
    Binance(CollectorView),
    Bitfinex(CollectorView),
}

impl View for Collector {
    type V = SourceView;

    open spec fn view(&self) -> SourceView {
        match self {
            Collector::Binance(c) => SourceView::Binance(c@),
            Collector::Bitfinex(c) => SourceView::Bitfinex(c@),
        }
    }
}

/// The contents of a list of collectors.
pub open spec fn collector_views(collectors: Seq<Collector>) -> Seq<SourceView> {
    Seq::new(collectors.len(), |i: int| collectors[i]@)
}

/// The collectors that a list of configurations asks for: one for each
/// enabled entry, in the order of the list. `None` where an enabled entry
/// names a source that is not known.
pub open spec fn planned(configs: Seq<CollectorConfigView>) -> Option<Seq<SourceView>>
    decreases configs.len(),
{
    if configs.len() == 0 {
        Some(Seq::empty())
    } else {
        let last = configs.last();
        match planned(configs.drop_last()) {
            None => None,
            Some(before) => if !last.enabled {
                Some(before)
            } else if last.kind == "binance"@ {
                Some(before.push(SourceView::Binance(CollectorView::of(last))))
            } else if last.kind == "bitfinex"@ {
                Some(before.push(SourceView::Bitfinex(CollectorView::of(last))))
            } else {
                None
            },
        }
    }
}

/// The message of the error for a source that is not known.
pub open spec fn unsupported_kind() -> Seq<char> {
    "unsupported kind"@
}

/// Builds the collectors that a list of configurations asks for. Entries
/// that are not enabled are passed over; an enabled entry of an unknown kind
/// fails the whole list.
pub fn init_collectors(config: &Vec<CollectorConfig>) -> (r: Result<Vec<Collector>, Error>)
    ensures
        match planned(collector_config_views(config@)) {
            Some(collectors) => r is Ok && collector_views(r->Ok_0@) == collectors,
            None => r is Err && r->Err_0 is CollectorError && r->Err_0.detail()
                == unsupported_kind(),
        },
{
    let binance = String::from_str("binance");
    let bitfinex = String::from_str("bitfinex");
    let mut collectors: Option<Vec<Collector>> = Some(Vec::new());
    let mut i: usize = 0;
    while i < config.len()
        invariant
            i <= config.len(),
            binance@ == "binance"@,
            bitfinex@ == "bitfinex"@,
            match planned(collector_config_views(config@).take(i as int)) {
                Some(before) => collectors is Some && collector_views(collectors->0@) == before,
                None => collectors is None,
            },
        decreases config.len() - i,
    {
        proof {
            let views = collector_config_views(config@);
            assert(views.take(i + 1).drop_last() == views.take(i as int));
            assert(views.take(i + 1).last() == config@[i as int]@);
        }
        if let Some(mut list) = collectors {
            let entry = &config[i];
            let ghost listed = collector_views(list@);
            if !entry.enabled {
                collectors = Some(list);
            } else if entry.kind == binance {
                let collector = Collector::Binance(BinanceMarketDataCollector::new(entry));
                list.push(collector);
                assert(collector_views(list@) == listed.push(collector@));
                collectors = Some(list);
            } else if entry.kind == bitfinex {
                let collector = Collector::Bitfinex(BitfinexMarketDataCollector::new(entry));
                list.push(collector);
                assert(collector_views(list@) == listed.push(collector@));
                collectors = Some(list);
            } else {
                collectors = None;
            }
        }
        i += 1;
    }
    assert(collector_config_views(config@).take(i as int) == collector_config_views(config@));
    match collectors {
        Some(list) => Ok(list),
        None => Err(Error::CollectorError(String::from_str("unsupported kind"))),
    }
}

} // verus!
