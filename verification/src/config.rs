//! The values that configure the oracle.

use crate::text::{blank, is_blank};
use std::time::Duration;
use vstd::prelude::*;

verus! {

/// A ticker to poll: the symbol that the source knows, the name under which
/// it is reported, and whether the price is to be inverted.
#[derive(Debug)]
pub struct Ticker {
    pub ticker: String,
    pub alias: String,
    pub inverted: bool,
}

/// The mathematical content of a [`Ticker`].
pub struct TickerView {
    pub ticker: Seq<char>,
    pub alias: Seq<char>,
    pub inverted: bool,
}

impl TickerView {
    /// The name under which the ticker is reported: its alias, or its symbol
    /// where the alias is blank.
    pub open spec fn label(self) -> Seq<char> {
        if is_blank(self.alias) {
            self.ticker
        } else {
            self.alias
        }
    }
}

impl View for Ticker {
    type V = TickerView;

    open spec fn view(&self) -> TickerView {
        TickerView { ticker: self.ticker@, alias: self.alias@, inverted: self.inverted }
    }
}

impl Clone for Ticker {
    fn clone(&self) -> (r: Self)
        ensures
            r@ == self@,
    {
        Ticker {
            ticker: self.ticker.clone(),
            alias: self.alias.clone(),
            inverted: self.inverted,
        }
    }
}

impl Ticker {
    /// The name under which the ticker is reported.
    pub fn label(&self) -> (r: String)
        ensures
            r@ == self@.label(),
    {
        if blank(self.alias.as_str()) {
            self.ticker.clone()
        } else {
            self.alias.clone()
        }
    }
}

/// The contents of a list of tickers.
pub open spec fn ticker_views(tickers: Seq<Ticker>) -> Seq<TickerView> {
    Seq::new(tickers.len(), |i: int| tickers[i]@)
}

/// Copies a list of tickers.
pub fn clone_tickers(tickers: &Vec<Ticker>) -> (r: Vec<Ticker>)
    ensures
        ticker_views(r@) == ticker_views(tickers@),
{
    let mut copy: Vec<Ticker> = Vec::new();
    let mut i: usize = 0;
    while i < tickers.len()
        invariant
            i <= tickers.len(),
            copy.len() == i,
            forall|k: int| 0 <= k < i ==> copy@[k]@ == tickers@[k]@,
        decreases tickers.len() - i,
    {
        copy.push(tickers[i].clone());
        i += 1;
    }
    assert(ticker_views(copy@) =~= ticker_views(tickers@));
    copy
}

/// The pauses of a collector: after each request, and after each pass over
/// its tickers.
#[derive(Debug, Clone, Copy)]
pub struct DelayConfig {
    pub request: Duration,
    pub batch: Duration,
}

/// One collector: which source it polls, whether it runs, where the source
/// is reached, its pauses and its tickers.
#[derive(Debug)]
pub struct CollectorConfig {
    pub kind: String,
    pub enabled: bool,
    pub endpoint: String,
    pub delay: DelayConfig,
    pub tickers: Vec<Ticker>,
}

/// The mathematical content of a [`CollectorConfig`].
pub struct CollectorConfigView {
    pub kind: Seq<char>,
    pub enabled: bool,
    pub endpoint: Seq<char>,
    pub delay: DelayConfig,
    pub tickers: Seq<TickerView>,
}

impl View for CollectorConfig {
    type V = CollectorConfigView;

    open spec fn view(&self) -> CollectorConfigView {
        CollectorConfigView {
            kind: self.kind@,
            enabled: self.enabled,
            endpoint: self.endpoint@,
            delay: self.delay,
            tickers: ticker_views(self.tickers@),
        }
    }
}

impl Clone for CollectorConfig {
    fn clone(&self) -> (r: Self)
        ensures
            r@ == self@,
    {
        CollectorConfig {
            kind: self.kind.clone(),
            enabled: self.enabled,
            endpoint: self.endpoint.clone(),
            delay: self.delay,
            tickers: clone_tickers(&self.tickers),
        }
    }
}

/// The oracle itself: how often it publishes a snapshot, and for how long an
/// observation stays fresh.
#[derive(Debug, Clone, Copy)]
pub struct PriceOracleConfig {
    pub delay: Duration,
    pub ttl: Duration,
}

/// One peer-to-peer proxy: the topic to publish under and where the proxy
/// is reached.
#[derive(Debug)]
pub struct P2PProxyProviderConfig {
    pub topic: String,
    pub endpoint: String,
}

impl Clone for P2PProxyProviderConfig {
    fn clone(&self) -> (r: Self)
        ensures
            r.topic@ == self.topic@,
            r.endpoint@ == self.endpoint@,
    {
        P2PProxyProviderConfig { topic: self.topic.clone(), endpoint: self.endpoint.clone() }
    }
}

/// The providers that snapshots are handed to.
#[derive(Debug)]
pub struct ProvidersConfig {
    pub p2p: Vec<P2PProxyProviderConfig>,
}

impl Clone for ProvidersConfig {
    fn clone(&self) -> (r: Self)
        ensures
            r.p2p.len() == self.p2p.len(),
            forall|i: int|
                0 <= i < self.p2p.len() ==> (#[trigger] r.p2p@[i]).topic@ == self.p2p@[i].topic@
                    && r.p2p@[i].endpoint@ == self.p2p@[i].endpoint@,
    {
        let mut p2p: Vec<P2PProxyProviderConfig> = Vec::new();
        let mut i: usize = 0;
        while i < self.p2p.len()
            invariant
                i <= self.p2p.len(),
                p2p.len() == i,
                forall|k: int|
                    0 <= k < i ==> (#[trigger] p2p@[k]).topic@ == self.p2p@[k].topic@
                        && p2p@[k].endpoint@ == self.p2p@[k].endpoint@,
            decreases self.p2p.len() - i,
        {
            p2p.push(self.p2p[i].clone());
            i += 1;
        }
        ProvidersConfig { p2p }
    }
}

/// The contents of a list of collector configurations.
pub open spec fn collector_config_views(configs: Seq<CollectorConfig>) -> Seq<
    CollectorConfigView,
> {
    Seq::new(configs.len(), |i: int| configs[i]@)
}

/// The whole configuration.
#[derive(Debug)]
pub struct AppConfig {
    pub providers: ProvidersConfig,
    pub collectors: Vec<CollectorConfig>,
    pub oracle: PriceOracleConfig,
}

impl Clone for AppConfig {
    fn clone(&self) -> (r: Self)
        ensures
            r.providers.p2p.len() == self.providers.p2p.len(),
            forall|i: int|
                0 <= i < self.providers.p2p.len() ==> (#[trigger] r.providers.p2p@[i]).topic@
                    == self.providers.p2p@[i].topic@ && r.providers.p2p@[i].endpoint@
                    == self.providers.p2p@[i].endpoint@,
            collector_config_views(r.collectors@) == collector_config_views(self.collectors@),
            r.oracle == self.oracle,
    {
        let mut collectors: Vec<CollectorConfig> = Vec::new();
        let mut i: usize = 0;
        while i < self.collectors.len()
            invariant
                i <= self.collectors.len(),
                collectors.len() == i,
                forall|k: int| 0 <= k < i ==> collectors@[k]@ == self.collectors@[k]@,
            decreases self.collectors.len() - i,
        {
            collectors.push(self.collectors[i].clone());
            i += 1;
        }
        assert(collector_config_views(collectors@) =~= collector_config_views(self.collectors@));
        AppConfig { providers: self.providers.clone(), collectors, oracle: self.oracle }
    }
}

} // verus!
