//! A price oracle core: per-source market observations are kept in a keyed
//! store and merged, on demand, into one volume-weighted quote per ticker.

pub mod aggregator;
pub mod clock;
pub mod collector;
pub mod config;
pub mod decimal;
pub mod error;
pub mod provider;
pub mod text;
