//! Paired order books for one market across two venues, with the
//! scalar cross-venue arbitrage check.

use vstd::prelude::*;

use crate::orderbook::AtomicOrderbook;
use crate::types::{MarketTier, Platform};

verus! {

/// One market's books on its fast and slow venues.
pub struct MarketState {
    pub market_id: u16,
    pub tier: MarketTier,
    pub fast_venue: Platform,
    pub slow_venue: Platform,
    pub fast_book: AtomicOrderbook,
    pub slow_book: AtomicOrderbook,
    /// Cross-venue spread threshold in cents.
    pub spread_threshold_cents: u16,
    /// Books further apart than this are not compared, in nanoseconds.
    pub staleness_window_ns: u64,
}

/// Magnitude of the difference of two u64 timestamps.
pub open spec fn ts_gap(a: u64, b: u64) -> int {
    if a >= b {
        a - b
    } else {
        b - a
    }
}

impl MarketState {
    /// Fresh market with empty books and the default 500 ms staleness
    /// window.
    pub fn new(
        market_id: u16,
        tier: MarketTier,
        fast_venue: Platform,
        slow_venue: Platform,
        spread_threshold_cents: u16,
    ) -> (r: Self)
        ensures
            r.market_id == market_id,
            r.tier == tier,
            r.fast_venue == fast_venue,
            r.slow_venue == slow_venue,
            r.spread_threshold_cents == spread_threshold_cents,
            r.staleness_window_ns == 500_000_000,
            r.fast_book.yes_level().price == 0,
            r.slow_book.yes_level().price == 0,
    {
        MarketState {
            market_id,
            tier,
            fast_venue,
            slow_venue,
            fast_book: AtomicOrderbook::new(),
            slow_book: AtomicOrderbook::new(),
            spread_threshold_cents,
            staleness_window_ns: 500_000_000,
        }
    }

    /// What `check_arbs` returns: the signed YES-price disparity
    /// between the venues and the venue whose quote leads (the venue
    /// with the newer timestamp), exactly when both books have
    /// non-zero YES quotes, the quotes are within the staleness
    /// window of one another, and the disparity's magnitude reaches
    /// the threshold.
    pub open spec fn arb_spec(&self, threshold_cents: u16) -> Option<(i32, Platform)> {
        let fast = self.fast_book.yes_level();
        let slow = self.slow_book.yes_level();
        let disparity = fast.price - slow.price;
        let magnitude = if disparity >= 0 {
            disparity
        } else {
            -disparity
        };
        if fast.price == 0 || slow.price == 0 {
            None
        } else if ts_gap(fast.timestamp_ns, slow.timestamp_ns) > self.staleness_window_ns {
            None
        } else if magnitude >= threshold_cents {
            Some((
                disparity as i32,
                if fast.timestamp_ns >= slow.timestamp_ns {
                    self.fast_venue
                } else {
                    self.slow_venue
                },
            ))
        } else {
            None
        }
    }

    /// Cross-venue arbitrage check over the two YES quotes.
    pub fn check_arbs(&self, threshold_cents: u16) -> (r: Option<(i32, Platform)>)
        ensures
            r == self.arb_spec(threshold_cents),
            r is Some ==> {
                let d = (r->Some_0).0;
                (if d >= 0 { d as int } else { -d }) >= threshold_cents
            },
    {
        let fast = self.fast_book.load_yes();
        let slow = self.slow_book.load_yes();
        if fast.price == 0 || slow.price == 0 {
            return None;
        }
        let gap: u64 = if fast.timestamp_ns >= slow.timestamp_ns {
            fast.timestamp_ns - slow.timestamp_ns
        } else {
            slow.timestamp_ns - fast.timestamp_ns
        };
        if gap > self.staleness_window_ns {
            return None;
        }
        let disparity: i32 = fast.price as i32 - slow.price as i32;
        let magnitude: i32 = if disparity >= 0 {
            disparity
        } else {
            -disparity
        };
        if magnitude >= threshold_cents as i32 {
            let leader = if fast.timestamp_ns >= slow.timestamp_ns {
                self.fast_venue
            } else {
                self.slow_venue
            };
            Some((disparity, leader))
        } else {
            None
        }
    }
}

} // verus!
