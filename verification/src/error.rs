//! The error type shared by the whole library.

use vstd::prelude::*;
use vstd::string::*;

verus! {

/// What can go wrong, each kind with its message.
#[derive(Debug)]
pub enum Error {
    /// The configuration could not be loaded.
    ConfigLoadError(String),
    /// A provider could not deliver a snapshot.
    ProviderError(String),
    /// A collector is misconfigured or could not decode a reply.
    CollectorError(String),
    /// An HTTP request failed.
    ReqwestError(String),
    /// A number could not be parsed.
    ParseFloatError(String),
    /// A message could not be encoded.
    EncodeError(String),
    /// Input or output failed.
    IOError(String),
    /// The observations of a ticker could not be merged.
    AggregatorError(String),
}

impl Error {
    /// The message that the error carries.
    pub open spec fn detail(self) -> Seq<char> {
        match self {
            Error::ConfigLoadError(m) => m@,
            Error::ProviderError(m) => m@,
            Error::CollectorError(m) => m@,
            Error::ReqwestError(m) => m@,
            Error::ParseFloatError(m) => m@,
            Error::EncodeError(m) => m@,
            Error::IOError(m) => m@,
            Error::AggregatorError(m) => m@,
        }
    }

    /// The words that introduce the message of each kind of error.
    pub open spec fn heading(self) -> Seq<char> {
        match self {
            Error::ConfigLoadError(_) => "config load failed: "@,
            Error::ProviderError(_) => "provider error: "@,
            Error::CollectorError(_) => "collector error: "@,
            Error::ReqwestError(_) => "reqwest error: "@,
            Error::ParseFloatError(_) => "parse float error: "@,
            Error::EncodeError(_) => "encoded error: "@,
            Error::IOError(_) => "IO error: "@,
            Error::AggregatorError(_) => "aggregator error: "@,
        }
    }

    /// The error as one line of text: the heading of its kind, then its
    /// message.
    pub fn describe(&self) -> (r: String)
        ensures
            r@ == self.heading() + self.detail(),
    {
        let (heading, detail) = match self {
            Error::ConfigLoadError(m) => ("config load failed: ", m),
            Error::ProviderError(m) => ("provider error: ", m),
            Error::CollectorError(m) => ("collector error: ", m),
            Error::ReqwestError(m) => ("reqwest error: ", m),
            Error::ParseFloatError(m) => ("parse float error: ", m),
            Error::EncodeError(m) => ("encoded error: ", m),
            Error::IOError(m) => ("IO error: ", m),
            Error::AggregatorError(m) => ("aggregator error: ", m),
        };
        let mut text = String::from_str(heading);
        text.append(detail.as_str());
        text
    }
}

} // verus!
