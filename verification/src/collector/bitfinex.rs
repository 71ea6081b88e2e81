//! The collector of Bitfinex's ticker.

use crate::collector::{not_invertible, observe, CollectorView, MarketData};
use crate::config::{clone_tickers, ticker_views, CollectorConfig, Ticker};
use crate::decimal::Decimal;
use crate::error::Error;
use crate::text::join;
use std::time::Duration;
use vstd::prelude::*;
use vstd::string::*;

verus! {

/// Where the last price stands in a reply.
pub const PRICE_FIELD: usize = 6;

/// Where the daily volume stands in a reply.
pub const VOLUME_FIELD: usize = 7;

/// The name under which Bitfinex's observations are reported.
pub open spec fn bitfinex() -> Seq<char> {
    "bitfinex"@
}

/// The path of the ticker of a trading pair, up to the symbol.
pub open spec fn ticker_path() -> Seq<char> {
    "/v2/ticker/t"@
}

/// What polls Bitfinex: where it is reached, the tickers to ask for and the
/// pauses between requests and between passes.
#[derive(Debug)]
pub struct BitfinexMarketDataCollector {
    endpoint: String,
    tickers: Vec<Ticker>,
    batch_delay: Duration,
    request_delay: Duration,
}

impl View for BitfinexMarketDataCollector {
    type V = CollectorView;

    closed spec fn view(&self) -> CollectorView {
        CollectorView {
            endpoint: self.endpoint@,
            tickers: ticker_views(self.tickers@),
            batch_delay: self.batch_delay,
            request_delay: self.request_delay,
        }
    }
}

impl Clone for BitfinexMarketDataCollector {
    fn clone(&self) -> (r: Self)
        ensures
            r@ == self@,
    {
        BitfinexMarketDataCollector {
            endpoint: self.endpoint.clone(),
            tickers: clone_tickers(&self.tickers),
            batch_delay: self.batch_delay,
            request_delay: self.request_delay,
        }
    }
}

/// The fields of a reply that an observation is made of.
pub struct Reply {
    pub price: Decimal,
    pub volume: Decimal,
}

/// What is wrong with a reply, if anything: the first of a missing price, a
/// price that is no number, a missing volume and a volume that is no number.
pub enum Flaw {
    NoPrice,
    BadPrice,
    NoVolume,
    BadVolume,
}

/// The first flaw of a reply, whose fields stand as `None` where they are
/// no decimal numbers.
pub open spec fn flaw_of(fields: Seq<Option<Decimal>>) -> Option<Flaw> {
    if fields.len() <= PRICE_FIELD {
        Some(Flaw::NoPrice)
    } else if fields[PRICE_FIELD as int] is None {
        Some(Flaw::BadPrice)
    } else if fields.len() <= VOLUME_FIELD {
        Some(Flaw::NoVolume)
    } else if fields[VOLUME_FIELD as int] is None {
        Some(Flaw::BadVolume)
    } else {
        None
    }
}

impl Flaw {
    /// The message of the error that reports the flaw.
    pub open spec fn message(self) -> Seq<char> {
        match self {
            Flaw::NoPrice => "can't decode price"@,
            Flaw::BadPrice => "can't decode price format"@,
            Flaw::NoVolume => "can't decode volume"@,
            Flaw::BadVolume => "can't decode volume format"@,
        }
    }

    /// Whether the error that reports the flaw is a provider error; it is a
    /// collector error otherwise.
    pub open spec fn blames_provider(self) -> bool {
        self is NoPrice || self is NoVolume
    }
}

/// Whether `error` reports `flaw`.
pub open spec fn reports(error: Error, flaw: Flaw) -> bool {
    &&& error.detail() == flaw.message()
    &&& if flaw.blames_provider() {
        error is ProviderError
    } else {
        error is CollectorError
    }
}

impl BitfinexMarketDataCollector {
    /// The collector that a configuration describes.
    pub fn new(config: &CollectorConfig) -> (r: Self)
        ensures
            r@ == CollectorView::of(config@),
    {
        BitfinexMarketDataCollector {
            endpoint: config.endpoint.clone(),
            tickers: clone_tickers(&config.tickers),
            batch_delay: config.delay.batch,
            request_delay: config.delay.request,
        }
    }

    /// Where Bitfinex is reached.
    pub fn endpoint(&self) -> (r: &String)
        ensures
            r@ == self@.endpoint,
    {
        &self.endpoint
    }

    /// The tickers to ask for, in the order of a pass.
    pub fn tickers(&self) -> (r: &Vec<Ticker>)
        ensures
            ticker_views(r@) == self@.tickers,
    {
        &self.tickers
    }

    /// The pause after a pass over all tickers.
    pub fn batch_delay(&self) -> (r: Duration)
        ensures
            r == self@.batch_delay,
    {
        self.batch_delay
    }

    /// The pause after each request.
    pub fn request_delay(&self) -> (r: Duration)
        ensures
            r == self@.request_delay,
    {
        self.request_delay
    }

    /// The address of the ticker of a trading pair.
    pub fn url(&self, ticker: &Ticker) -> (r: String)
        ensures
            r@ == self@.endpoint + ticker_path() + ticker.ticker@,
    {
        let mut url = join(self.endpoint.as_str(), "/v2/ticker/t");
        url.append(ticker.ticker.as_str());
        url
    }

    /// Picks the last price and the daily volume out of the fields of a
    /// reply, or reports its first flaw.
    pub fn decode(fields: &Vec<Option<Decimal>>) -> (r: Result<Reply, Error>)
        ensures
            match flaw_of(fields@) {
                None => r is Ok && r->Ok_0.price@ == fields@[PRICE_FIELD as int]->0@
                    && r->Ok_0.price.width() == fields@[PRICE_FIELD as int]->0.width()
                    && r->Ok_0.volume@ == fields@[VOLUME_FIELD as int]->0@,
                Some(flaw) => r is Err && reports(r->Err_0, flaw),
            },
    {
        if fields.len() <= PRICE_FIELD {
            return Err(Error::ProviderError(String::from_str("can't decode price")));
        }
        let price = match &fields[PRICE_FIELD] {
            Some(price) => price.clone(),
            None => {
                return Err(Error::CollectorError(String::from_str("can't decode price format")));
            },
        };
        if fields.len() <= VOLUME_FIELD {
            return Err(Error::ProviderError(String::from_str("can't decode volume")));
        }
        let volume = match &fields[VOLUME_FIELD] {
            Some(volume) => volume.clone(),
            None => {
                return Err(Error::CollectorError(String::from_str("can't decode volume format")));
            },
        };
        Ok(Reply { price, volume })
    }

    /// The observation that a reply stands for, at the present moment: the
    /// last price, inverted where the ticker asks for it, and the daily
    /// volume. A flawed reply is reported before anything else.
    pub fn market_data(&self, ticker: &Ticker, fields: &Vec<Option<Decimal>>) -> (r: Result<
        MarketData,
        Error,
    >)
        ensures
            flaw_of(fields@) is Some ==> r is Err && reports(r->Err_0, flaw_of(fields@)->0),
            flaw_of(fields@) is None && !ticker.inverted ==> r is Ok && r->Ok_0@.price
                == fields@[PRICE_FIELD as int]->0@,
            flaw_of(fields@) is None && ticker.inverted && !fields@[PRICE_FIELD as int]->0.invertible()
                ==> r is Err,
            r is Ok ==> flaw_of(fields@) is None && r->Ok_0@.provider == bitfinex()
                && r->Ok_0@.ticker == ticker@.label() && r->Ok_0@.volume
                == fields@[VOLUME_FIELD as int]->0@,
            r is Err && flaw_of(fields@) is None ==> ticker.inverted && r->Err_0 is CollectorError
                && r->Err_0.detail() == not_invertible(),
    {
        match Self::decode(fields) {
            Ok(reply) => observe("bitfinex", ticker, reply.price, reply.volume),
            Err(e) => Err(e),
        }
    }
}

} // verus!
