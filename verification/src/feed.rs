//! Feed aggregation state: connection status per venue, latency
//! statistics, and the reconnect decision rule. The sockets themselves
//! live with the host; this module owns the bookkeeping.

use vstd::prelude::*;

use crate::types::{MarketType, Platform, PriceCents, SizeCents, TimestampNs};

verus! {

/// Feed connection status.
#[derive(Clone, Copy, Debug, PartialEq, Eq, Structural)]
pub enum FeedStatus {
    Connected,
    Connecting,
    Disconnected,
    Error,
}

/// One venue's connection bookkeeping.
#[derive(Clone, Copy, Debug, PartialEq, Eq, Structural)]
pub struct FeedConnection {
    pub provider: Platform,
    pub status: FeedStatus,
    pub last_heartbeat_ns: u64,
    pub reconnect_attempts: u32,
    pub latency_ns: u64,
}

/// Aggregated price update message.
pub struct PriceUpdate {
    pub market_id: u16,
    pub provider: Platform,
    pub market_type: MarketType,
    pub yes_price: PriceCents,
    pub no_price: PriceCents,
    pub yes_size: SizeCents,
    pub no_size: SizeCents,
    pub received_timestamp: TimestampNs,
    pub provider_timestamp: Option<TimestampNs>,
}

/// Feed aggregator configuration.
#[derive(Clone, Copy, Debug, PartialEq, Eq, Structural)]
pub struct FeedAggregatorConfig {
    pub max_reconnect_attempts: u32,
    pub reconnect_delay_ms: u64,
    pub heartbeat_interval_ms: u64,
    pub latency_sample_window: usize,
    pub enable_latency_tracking: bool,
}

impl FeedAggregatorConfig {
    /// Defaults: ten reconnects with a 5 s back-off, a 30 s heartbeat,
    /// and a 100-sample latency window.
    pub fn new_default() -> (r: Self)
        ensures
            r.max_reconnect_attempts == 10,
            r.reconnect_delay_ms == 5000,
            r.heartbeat_interval_ms == 30_000,
            r.latency_sample_window == 100,
            r.enable_latency_tracking,
    {
        FeedAggregatorConfig {
            max_reconnect_attempts: 10,
            reconnect_delay_ms: 5000,
            heartbeat_interval_ms: 30_000,
            latency_sample_window: 100,
            enable_latency_tracking: true,
        }
    }
}

/// Rolling latency statistics for one venue.
pub struct LatencyStats {
    pub samples: Vec<u64>,
    pub min_latency_ns: u64,
    pub max_latency_ns: u64,
    pub last_updated_ns: u64,
}

/// Saturating sum of latency samples.
pub open spec fn sample_sum(s: Seq<u64>, k: int) -> int
    decreases k,
{
    if k <= 0 {
        0
    } else {
        sample_sum(s, k - 1) + s[k - 1]
    }
}

impl LatencyStats {
    pub fn new() -> (r: Self)
        ensures
            r.samples@.len() == 0,
            r.min_latency_ns == u64::MAX,
            r.max_latency_ns == 0,
    {
        LatencyStats {
            samples: Vec::new(),
            min_latency_ns: u64::MAX,
            max_latency_ns: 0,
            last_updated_ns: 0,
        }
    }

    /// Fold one sample into the rolling window: the oldest sample is
    /// dropped once the window is full, and the extremes track every
    /// sample ever seen.
    pub fn add_sample(&mut self, latency_ns: u64, window_size: usize, now_ns: u64)
        requires
            window_size >= 1,
        ensures
            final(self).samples@ == if old(self).samples@.len() + 1 > window_size {
                old(self).samples@.push(latency_ns).subrange(
                    1, old(self).samples@.len() as int + 1)
            } else {
                old(self).samples@.push(latency_ns)
            },
            final(self).min_latency_ns == if latency_ns < old(self).min_latency_ns {
                latency_ns
            } else {
                old(self).min_latency_ns
            },
            final(self).max_latency_ns == if latency_ns > old(self).max_latency_ns {
                latency_ns
            } else {
                old(self).max_latency_ns
            },
            final(self).last_updated_ns == now_ns,
    {
        self.samples.push(latency_ns);
        if self.samples.len() > window_size {
            self.samples.remove(0);
            proof {
                assert(self.samples@ =~= old(self).samples@.push(latency_ns).subrange(
                    1, old(self).samples@.len() as int + 1));
            }
        }
        if latency_ns < self.min_latency_ns {
            self.min_latency_ns = latency_ns;
        }
        if latency_ns > self.max_latency_ns {
            self.max_latency_ns = latency_ns;
        }
        self.last_updated_ns = now_ns;
    }

    /// Mean latency over the window, zero when empty.
    pub fn avg_latency_ns(&self) -> (r: u64)
        requires
            self.samples@.len() <= 1_000_000,
            forall|i: int| 0 <= i < self.samples@.len()
                ==> #[trigger] self.samples@[i] <= 1_000_000_000_000,
        ensures
            r as int == if self.samples@.len() == 0 {
                0
            } else {
                sample_sum(self.samples@, self.samples@.len() as int)
                    / (self.samples@.len() as int)
            },
    {
        if self.samples.len() == 0 {
            return 0;
        }
        let mut total: u64 = 0;
        let mut i: usize = 0;
        while i < self.samples.len()
            invariant
                self.samples@.len() <= 1_000_000,
                forall|k: int| 0 <= k < self.samples@.len()
                    ==> #[trigger] self.samples@[k] <= 1_000_000_000_000,
                i <= self.samples.len(),
                total == sample_sum(self.samples@, i as int),
                total <= i * 1_000_000_000_000,
            decreases self.samples.len() - i,
        {
            proof {
                assert((i + 1) * 1_000_000_000_000
                    == i * 1_000_000_000_000 + 1_000_000_000_000) by (nonlinear_arith);
                assert(i * 1_000_000_000_000 <= 1_000_000 * 1_000_000_000_000)
                    by (nonlinear_arith)
                    requires i <= 1_000_000usize;
            }
            total = total + self.samples[i];
            i = i + 1;
        }
        total / (self.samples.len() as u64)
    }
}

/// The reconnect decision for one connection at one instant: whether
/// the heartbeat is stale, and whether a reconnect should be tried.
pub open spec fn heartbeat_stale(conn: FeedConnection, now_ns: u64, heartbeat_interval_ms: u64)
    -> bool {
    now_ns >= conn.last_heartbeat_ns
        && now_ns - conn.last_heartbeat_ns > 2 * heartbeat_interval_ms * 1_000_000
}

/// Apply a status transition to a connection: a successful connect
/// resets the retry budget, an error spends one attempt, and any
/// reported latency is recorded.
pub fn update_connection_status(conn: &mut FeedConnection, status: FeedStatus,
    latency_ns: Option<u64>, now_ns: u64)
    ensures
        final(conn).status == status,
        final(conn).last_heartbeat_ns == now_ns,
        final(conn).provider == old(conn).provider,
        final(conn).latency_ns == match latency_ns {
            Some(l) => l,
            None => old(conn).latency_ns,
        },
        final(conn).reconnect_attempts == if status == FeedStatus::Connected {
            0u32
        } else if status == FeedStatus::Error {
            if old(conn).reconnect_attempts < u32::MAX {
                (old(conn).reconnect_attempts + 1) as u32
            } else {
                u32::MAX
            }
        } else {
            old(conn).reconnect_attempts
        },
{
    conn.status = status;
    conn.last_heartbeat_ns = now_ns;
    if let Some(l) = latency_ns {
        conn.latency_ns = l;
    }
    match status {
        FeedStatus::Connected => {
            conn.reconnect_attempts = 0;
        },
        FeedStatus::Error => {
            if conn.reconnect_attempts < u32::MAX {
                conn.reconnect_attempts = conn.reconnect_attempts + 1;
            }
        },
        _ => {},
    }
}

/// The reconnect rule: a stale connected feed is marked disconnected;
/// a stale feed below the retry budget moves to connecting. Returns
/// whether the host should start a reconnect.
pub fn check_connection(conn: &mut FeedConnection, config: &FeedAggregatorConfig, now_ns: u64)
    -> (reconnect: bool)
    requires
        config.heartbeat_interval_ms <= 1_000_000,
    ensures
        reconnect == (heartbeat_stale(*old(conn), now_ns, config.heartbeat_interval_ms)
            && old(conn).reconnect_attempts < config.max_reconnect_attempts),
        !heartbeat_stale(*old(conn), now_ns, config.heartbeat_interval_ms)
            ==> *final(conn) == *old(conn),
        final(conn).provider == old(conn).provider,
        reconnect ==> final(conn).status == FeedStatus::Connecting,
{
    let stale = now_ns >= conn.last_heartbeat_ns
        && now_ns - conn.last_heartbeat_ns > 2 * config.heartbeat_interval_ms * 1_000_000;
    if !stale {
        return false;
    }
    if matches!(conn.status, FeedStatus::Connected) {
        conn.status = FeedStatus::Disconnected;
    }
    if conn.reconnect_attempts < config.max_reconnect_attempts {
        conn.status = FeedStatus::Connecting;
        true
    } else {
        false
    }
}

} // verus!
