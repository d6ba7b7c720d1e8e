//! Cross-venue latency-arbitrage core for binary prediction and sports
//! betting markets: atomic order books, adaptive fixed-point Kalman filters,
//! a latency correlator, and a risk gate that turns signals into
//! size-bounded execution intents.

pub mod beta;
pub mod checkpoint;
pub mod codec;
pub mod correlator;
pub mod execution;
pub mod feed;
pub mod fixed;
pub mod kalman;
pub mod market;
pub mod orderbook;
pub mod risk;
pub mod simconfig;
pub mod telemetry;
pub mod types;
pub mod worker;

pub use types::{MarketTier, MarketType, Platform, Regime};
