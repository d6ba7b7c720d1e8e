//! Shared domain types: venues, market kinds, tiers, regimes, and the
//! price observation record that flows through the pipeline.

use vstd::prelude::*;

verus! {

/// Price in integer cents (0..=100 for binaries; scaled integer for sports).
pub type PriceCents = u16;

/// Order size in integer cents.
pub type SizeCents = u32;

/// Nanoseconds since the epoch.
pub type TimestampNs = u64;

/// A venue that publishes quotes.
#[derive(Clone, Copy, Debug, PartialEq, Eq, Structural, Hash)]
pub enum Platform {
    Kalshi,
    Polymarket,
    DraftKings,
    FanDuel,
}

impl Platform {
    /// Stable small index, used to key per-venue tables.
    pub fn index(&self) -> (r: u8)
        ensures
            r == self.index_spec(),
            r < 4,
    {
        match self {
            Platform::Kalshi => 0,
            Platform::Polymarket => 1,
            Platform::DraftKings => 2,
            Platform::FanDuel => 3,
        }
    }

    pub open spec fn index_spec(&self) -> u8 {
        match self {
            Platform::Kalshi => 0,
            Platform::Polymarket => 1,
            Platform::DraftKings => 2,
            Platform::FanDuel => 3,
        }
    }
}

/// The kind of market a quote belongs to.
#[derive(Clone, Copy, Debug, PartialEq, Eq, Structural, Hash)]
pub enum MarketType {
    Moneyline,
    Spread,
    Total,
    HalfTotal,
    QuarterTotal,
    AltLine,
    PlayerProp,
    TeamTotal,
}

/// Market tier classification for half-life modelling.
#[derive(Clone, Copy, Debug, PartialEq, Eq, Structural, Hash)]
pub enum MarketTier {
    /// Core markets (200-400 ms half-life).
    Tier1,
    /// Derived markets (400 ms - 1.5 s half-life).
    Tier2,
    /// Proposition markets (800 ms - 2 s half-life).
    Tier3,
    /// Complex derivatives (2-5 s half-life).
    Tier4,
}

impl MarketTier {
    pub open spec fn half_life_ns_spec(&self) -> u64 {
        match self {
            MarketTier::Tier1 => 300_000_000,
            MarketTier::Tier2 => 950_000_000,
            MarketTier::Tier3 => 1_400_000_000,
            MarketTier::Tier4 => 3_500_000_000,
        }
    }

    /// Characteristic propagation half-life of this tier, in nanoseconds.
    pub fn half_life_ns(&self) -> (r: u64)
        ensures
            r == self.half_life_ns_spec(),
            0 < r <= 3_500_000_000,
    {
        match self {
            MarketTier::Tier1 => 300_000_000,
            MarketTier::Tier2 => 950_000_000,
            MarketTier::Tier3 => 1_400_000_000,
            MarketTier::Tier4 => 3_500_000_000,
        }
    }

    /// The dominant update constraint of markets in this tier.
    pub fn constraint(&self) -> (r: &'static str)
        ensures
            self == MarketTier::Tier1 ==> r@ == "Direct betting volume"@,
            self == MarketTier::Tier2 ==> r@ == "Model calculation time"@,
            self == MarketTier::Tier3 ==> r@ == "Provider feed latency"@,
            self == MarketTier::Tier4 ==> r@ == "Correlation matrix updates"@,
    {
        match self {
            MarketTier::Tier1 => "Direct betting volume",
            MarketTier::Tier2 => "Model calculation time",
            MarketTier::Tier3 => "Provider feed latency",
            MarketTier::Tier4 => "Correlation matrix updates",
        }
    }
}

/// Regime of a filtered market: selects process noise and admission policy.
#[derive(Clone, Copy, Debug, PartialEq, Eq, Structural, Hash)]
pub enum Regime {
    /// Low volatility, mean-reverting state.
    Quiet,
    /// High-velocity, trending state.
    Steam,
    /// Market frozen by an explicit external status signal.
    Suspended,
}

impl Regime {
    pub fn as_str(&self) -> (r: &'static str)
        ensures
            self == Regime::Quiet ==> r@ == "quiet"@,
            self == Regime::Steam ==> r@ == "steam"@,
            self == Regime::Suspended ==> r@ == "suspended"@,
    {
        match self {
            Regime::Quiet => "quiet",
            Regime::Steam => "steam",
            Regime::Suspended => "suspended",
        }
    }
}

/// Cross-market price observation with latency metadata.
#[derive(Clone, Copy, Debug, PartialEq, Eq, Structural)]
pub struct PriceObservation {
    pub market_id: u16,
    pub provider: Platform,
    pub market_type: MarketType,
    pub price: PriceCents,
    pub size: SizeCents,
    pub timestamp_ns: TimestampNs,
    pub tier: MarketTier,
}

} // verus!
