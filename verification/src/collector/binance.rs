//! The collector of Binance's 24-hour ticker.

use crate::collector::{not_invertible, observe, CollectorView, MarketData};
use crate::config::{clone_tickers, ticker_views, CollectorConfig, Ticker};
use crate::decimal::Decimal;
use crate::error::Error;
use crate::text::join;
use std::time::Duration;
use vstd::prelude::*;
use vstd::string::*;

verus! {

/// The name under which Binance's observations are reported.
pub open spec fn binance() -> Seq<char> {
    "binance"@
}

/// The path and query of the 24-hour ticker, up to the symbol.
pub open spec fn ticker_path() -> Seq<char> {
    "/api/v3/ticker/24hr?symbol="@
}

/// What polls Binance: where it is reached, the tickers to ask for and the
/// pauses between requests and between passes.
#[derive(Debug)]
pub struct BinanceMarketDataCollector {
    endpoint: String,
    tickers: Vec<Ticker>,
    batch_delay: Duration,
    request_delay: Duration,
}

impl View for BinanceMarketDataCollector {
    type V = CollectorView;

    closed spec fn view(&self) -> CollectorView {
        CollectorView {
            endpoint: self.endpoint@,
            tickers: ticker_views(self.tickers@),
            batch_delay: self.batch_delay,
            request_delay: self.request_delay,
        }
    }
}

impl Clone for BinanceMarketDataCollector {
    fn clone(&self) -> (r: Self)
        ensures
            r@ == self@,
    {
        BinanceMarketDataCollector {
            endpoint: self.endpoint.clone(),
            tickers: clone_tickers(&self.tickers),
            batch_delay: self.batch_delay,
            request_delay: self.request_delay,
        }
    }
}

impl BinanceMarketDataCollector {
    /// The collector that a configuration describes.
    pub fn new(config: &CollectorConfig) -> (r: Self)
        ensures
            r@ == CollectorView::of(config@),
    {
        BinanceMarketDataCollector {
            endpoint: config.endpoint.clone(),
            tickers: clone_tickers(&config.tickers),
            batch_delay: config.delay.batch,
            request_delay: config.delay.request,
        }
    }

    /// Where Binance is reached.
    pub fn endpoint(&self) -> (r: &String)
        ensures
            r@ == self@.endpoint,
    {
        &self.endpoint
    }

    /// The tickers to ask for, in the order of a pass.
    pub fn tickers(&self) -> (r: &Vec<Ticker>)
        ensures
            ticker_views(r@) == self@.tickers,
    {
        &self.tickers
    }

    /// The pause after a pass over all tickers.
    pub fn batch_delay(&self) -> (r: Duration)
        ensures
            r == self@.batch_delay,
    {
        self.batch_delay
    }

    /// The pause after each request.
    pub fn request_delay(&self) -> (r: Duration)
        ensures
            r == self@.request_delay,
    {
        self.request_delay
    }

    /// The address of the 24-hour ticker of a symbol.
    pub fn url(&self, ticker: &Ticker) -> (r: String)
        ensures
            r@ == self@.endpoint + ticker_path() + ticker.ticker@,
    {
        let mut url = join(self.endpoint.as_str(), "/api/v3/ticker/24hr?symbol=");
        url.append(ticker.ticker.as_str());
        url
    }

    /// The observation that a reply stands for, at the present moment: the
    /// last price, inverted where the ticker asks for it, and the quote
    /// volume.
    pub fn market_data(&self, ticker: &Ticker, last_price: Decimal, volume: Decimal) -> (r: Result<
        MarketData,
        Error,
    >)
        ensures
            !ticker.inverted ==> r is Ok && r->Ok_0@.price == last_price@,
            ticker.inverted && !last_price.invertible() ==> r is Err,
            r is Ok ==> r->Ok_0@.provider == binance() && r->Ok_0@.ticker == ticker@.label()
                && r->Ok_0@.volume == volume@,
            r is Err ==> ticker.inverted && r->Err_0 is CollectorError && r->Err_0.detail()
                == not_invertible(),
    {
        observe("binance", ticker, last_price, volume)
    }
}

} // verus!
