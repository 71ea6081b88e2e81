//! The provider that publishes snapshots through a peer-to-peer proxy.

use crate::config::P2PProxyProviderConfig;
use crate::error::Error;
use crate::text::join;
use vstd::prelude::*;
use vstd::string::*;

verus! {

/// The path under which a proxy takes messages.
pub open spec fn publish_path() -> Seq<char> {
    "/pubsub/publish"@
}

/// The words that introduce the status of a request that the proxy refused.
pub open spec fn refusal() -> Seq<char> {
    "can't feed data to proxy, status code: "@
}

/// The status with which the proxy takes a message.
pub const STATUS_OK: u16 = 200;

/// The standard Base64 text of `bytes`, with padding, as the `base64` crate
/// writes it.
pub uninterp spec fn base64_text(bytes: Seq<u8>) -> Seq<char>;

/// The length of the Base64 text of `length` bytes: four characters for
/// every three bytes or part of them.
pub open spec fn base64_length(length: nat) -> nat {
    4 * ((length + 2) / 3)
}

/// Calls `base64`'s `encode`, which writes the bytes in the standard
/// alphabet with padding. It panics where the length of the text does not
/// fit `usize`, which is left out here.
#[verifier::external_body]
fn encode(bytes: &Vec<u8>) -> (r: String)
    requires
        base64_length(bytes@.len()) <= usize::MAX,
    ensures
        r@ == base64_text(bytes@),
        r@.len() == base64_length(bytes@.len()),
{
    base64::encode(bytes)
}

/// What is posted to the proxy: the topic and the message in Base64.
#[derive(Debug)]
pub struct P2PRequest {
    topic: String,
    data: String,
}

impl Clone for P2PRequest {
    fn clone(&self) -> (r: Self)
        ensures
            r.topic_text() == self.topic_text(),
            r.data_text() == self.data_text(),
    {
        P2PRequest { topic: self.topic.clone(), data: self.data.clone() }
    }
}

impl P2PRequest {
    /// The topic of the request.
    pub closed spec fn topic_text(&self) -> Seq<char> {
        self.topic@
    }

    /// The message of the request, in Base64.
    pub closed spec fn data_text(&self) -> Seq<char> {
        self.data@
    }

    /// The request that publishes `message` under `topic`. The Base64 text
    /// of the message has to fit `usize`.
    pub fn new(topic: &str, message: &Vec<u8>) -> (r: Self)
        requires
            base64_length(message@.len()) <= usize::MAX,
        ensures
            r.topic_text() == topic@,
            r.data_text() == base64_text(message@),
            r.data_text().len() == base64_length(message@.len()),
    {
        P2PRequest { topic: String::from_str(topic), data: encode(message) }
    }

    /// The topic of the request.
    pub fn topic(&self) -> (r: &String)
        ensures
            r@ == self.topic_text(),
    {
        &self.topic
    }

    /// The message of the request, in Base64.
    pub fn data(&self) -> (r: &String)
        ensures
            r@ == self.data_text(),
    {
        &self.data
    }
}

/// The mathematical content of a [`P2PProvider`].
pub struct ProviderView {
    pub endpoint: Seq<char>,
    pub topic: Seq<char>,
}

impl ProviderView {
    /// The provider for a proxy that is reached at `endpoint`, publishing
    /// under `topic`.
    pub open spec fn of(endpoint: Seq<char>, topic: Seq<char>) -> ProviderView {
        ProviderView { endpoint: endpoint + publish_path(), topic }
    }
}

/// The provider for one peer-to-peer proxy: the address to post to and the
/// topic to publish under.
#[derive(Debug)]
pub struct P2PProvider {
    endpoint: String,
    topic: String,
}

impl View for P2PProvider {
    type V = ProviderView;

    closed spec fn view(&self) -> ProviderView {
        ProviderView { endpoint: self.endpoint@, topic: self.topic@ }
    }
}

impl Clone for P2PProvider {
    fn clone(&self) -> (r: Self)
        ensures
            r@ == self@,
    {
        P2PProvider { endpoint: self.endpoint.clone(), topic: self.topic.clone() }
    }
}

impl P2PProvider {
    /// The provider that a configuration describes.
    pub fn new(config: &P2PProxyProviderConfig) -> (r: Self)
        ensures
            r@ == ProviderView::of(config.endpoint@, config.topic@),
    {
        P2PProvider {
            endpoint: join(config.endpoint.as_str(), "/pubsub/publish"),
            topic: config.topic.clone(),
        }
    }

    /// The address to post to.
    pub fn endpoint(&self) -> (r: &String)
        ensures
            r@ == self@.endpoint,
    {
        &self.endpoint
    }

    /// The topic to publish under.
    pub fn topic(&self) -> (r: &String)
        ensures
            r@ == self@.topic,
    {
        &self.topic
    }

    /// The request that publishes an encoded snapshot. The Base64 text of
    /// the message has to fit `usize`.
    pub fn request(&self, message: &Vec<u8>) -> (r: P2PRequest)
        requires
            base64_length(message@.len()) <= usize::MAX,
        ensures
            r.topic_text() == self@.topic,
            r.data_text() == base64_text(message@),
            r.data_text().len() == base64_length(message@.len()),
    {
        P2PRequest::new(self.topic.as_str(), message)
    }

    /// How a delivery has ended, given the status of the proxy's reply and
    /// that status as text: well on status 200, and with a provider error
    /// that names the status on any other.
    pub fn outcome(status: u16, status_text: &str) -> (r: Result<(), Error>)
        ensures
            status == STATUS_OK ==> r is Ok,
            status != STATUS_OK ==> r is Err && r->Err_0 is ProviderError && r->Err_0.detail()
                == refusal() + status_text@,
    {
        if status == STATUS_OK {
            Ok(())
        } else {
            Err(
                Error::ProviderError(
                    join("can't feed data to proxy, status code: ", status_text),
                ),
            )
        }
    }
}

} // verus!
