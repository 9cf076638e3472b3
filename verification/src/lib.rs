//! A verified fetch-normalize-cache-serve price feed library.
//!
//! Spot buy/sell quotes for a fixed set of currency symbols are pulled from
//! two providers with incompatible response schemas, normalized into
//! fixed-point quotes, merged into one JSON snapshot document, and kept in a
//! reader/writer-locked cache that HTTP handlers read without ever touching
//! the network.

pub mod adapters;
pub mod cache;
pub mod model;
pub mod price;
pub mod serve;
pub mod snapshot;

pub use price::Price;
