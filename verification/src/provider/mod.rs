//! The providers that snapshots are handed to.

pub mod p2p;

use crate::config::ProvidersConfig;
use crate::error::Error;
use crate::provider::p2p::{P2PProvider, ProviderView};
use vstd::prelude::*;

verus! {

/// The contents of a list of providers.
pub open spec fn provider_views(providers: Seq<P2PProvider>) -> Seq<ProviderView> {
    Seq::new(providers.len(), |i: int| providers[i]@)
}

/// Builds the providers that the configuration names: one for each
/// peer-to-peer proxy, in the order of the list. It does not fail.
pub fn init_providers(config: &ProvidersConfig) -> (r: Result<Vec<P2PProvider>, Error>)
    ensures
        r is Ok,
        r->Ok_0.len() == config.p2p.len(),
        forall|i: int|
            0 <= i < config.p2p.len() ==> (#[trigger] r->Ok_0@[i])@ == ProviderView::of(
                config.p2p@[i].endpoint@,
                config.p2p@[i].topic@,
            ),
{
    let mut providers: Vec<P2PProvider> = Vec::new();
    let mut i: usize = 0;
    while i < config.p2p.len()
        invariant
            i <= config.p2p.len(),
            providers.len() == i,
            forall|k: int|
                0 <= k < i ==> (#[trigger] providers@[k])@ == ProviderView::of(
                    config.p2p@[k].endpoint@,
                    config.p2p@[k].topic@,
                ),
        decreases config.p2p.len() - i,
    {
        providers.push(P2PProvider::new(&config.p2p[i]));
        i += 1;
    }
    Ok(providers)
}

} // verus!
