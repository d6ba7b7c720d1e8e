//! Read-only telemetry snapshot: counters per component, exposure per
//! venue, and circuit-breaker states. Health is expressed only through
//! this snapshot.

use vstd::prelude::*;

use crate::risk::{CircuitState, RiskManagementEngine};
use crate::types::Platform;

verus! {

/// Counters the pipeline maintains per tick.
#[derive(Clone, Copy, Debug, PartialEq, Eq, Structural)]
pub struct TelemetryCounters {
    pub updates_processed: u64,
    pub regimes_entered: u64,
    pub signals_created: u64,
    pub signals_accepted: u64,
    pub rejected_circuit: u64,
    pub rejected_exposure: u64,
    pub rejected_half_life: u64,
    pub filter_degraded: u64,
}

impl TelemetryCounters {
    pub fn new() -> (r: Self)
        ensures
            r.updates_processed == 0,
            r.regimes_entered == 0,
            r.signals_created == 0,
            r.signals_accepted == 0,
            r.rejected_circuit == 0,
            r.rejected_exposure == 0,
            r.rejected_half_life == 0,
            r.filter_degraded == 0,
    {
        TelemetryCounters {
            updates_processed: 0,
            regimes_entered: 0,
            signals_created: 0,
            signals_accepted: 0,
            rejected_circuit: 0,
            rejected_exposure: 0,
            rejected_half_life: 0,
            filter_degraded: 0,
        }
    }

    /// Count one processed update.
    pub fn record_update(&mut self)
        ensures
            final(self).updates_processed == crate::risk::add_sat(old(self).updates_processed),
            final(self).signals_created == old(self).signals_created,
            final(self).signals_accepted == old(self).signals_accepted,
    {
        if self.updates_processed < u64::MAX {
            self.updates_processed = self.updates_processed + 1;
        }
    }

    /// Count one created signal.
    pub fn record_signal(&mut self)
        ensures
            final(self).signals_created == crate::risk::add_sat(old(self).signals_created),
            final(self).updates_processed == old(self).updates_processed,
    {
        if self.signals_created < u64::MAX {
            self.signals_created = self.signals_created + 1;
        }
    }

    /// Count one accepted signal.
    pub fn record_accepted(&mut self)
        ensures
            final(self).signals_accepted == crate::risk::add_sat(old(self).signals_accepted),
            final(self).updates_processed == old(self).updates_processed,
    {
        if self.signals_accepted < u64::MAX {
            self.signals_accepted = self.signals_accepted + 1;
        }
    }
}

/// One venue's health in a snapshot.
#[derive(Clone, Copy, Debug, PartialEq, Eq, Structural)]
pub struct VenueSnapshot {
    pub venue: Platform,
    pub net_exposure_cents: i64,
    pub breaker_state: CircuitState,
}

/// A read-only snapshot of pipeline health.
pub struct TelemetrySnapshot {
    pub counters: TelemetryCounters,
    pub venues: Vec<VenueSnapshot>,
}

/// Take a snapshot of risk state and counters: one entry per venue
/// with its current net exposure and breaker state, and the rejection
/// counters the risk engine keeps.
pub fn snapshot(counters: &TelemetryCounters, risk: &RiskManagementEngine)
    -> (r: TelemetrySnapshot)
    requires
        risk.wf(),
    ensures
        r.venues@.len() == 4,
        forall|i: int| 0 <= i < 4 ==> (#[trigger] r.venues@[i]).net_exposure_cents
            == risk.exposure.net_spec(r.venues@[i].venue),
        forall|i: int| 0 <= i < 4 ==> (#[trigger] r.venues@[i]).breaker_state
            == risk.breaker_of(r.venues@[i].venue).state,
        r.counters.updates_processed == counters.updates_processed,
        r.counters.signals_created == counters.signals_created,
        r.counters.signals_accepted == counters.signals_accepted,
        r.counters.rejected_circuit == risk.rejected_circuit,
        r.counters.rejected_exposure == risk.rejected_exposure,
        r.counters.rejected_half_life == risk.rejected_half_life,
{
    let mut venues: Vec<VenueSnapshot> = Vec::new();
    let all = [Platform::Kalshi, Platform::Polymarket, Platform::DraftKings, Platform::FanDuel];
    let mut i: usize = 0;
    while i < 4
        invariant
            risk.wf(),
            i <= 4,
            venues@.len() == i,
            all@.len() == 4,
            all@[0] == Platform::Kalshi && all@[1] == Platform::Polymarket
                && all@[2] == Platform::DraftKings && all@[3] == Platform::FanDuel,
            forall|k: int| 0 <= k < i ==> (#[trigger] venues@[k]).net_exposure_cents
                == risk.exposure.net_spec(venues@[k].venue),
            forall|k: int| 0 <= k < i ==> (#[trigger] venues@[k]).breaker_state
                == risk.breaker_of(venues@[k].venue).state,
        decreases 4 - i,
    {
        let v = all[i];
        let net = risk.exposure.net_exposure(v);
        let st = risk.breaker_state(v);
        venues.push(VenueSnapshot { venue: v, net_exposure_cents: net, breaker_state: st });
        i = i + 1;
    }
    TelemetrySnapshot {
        counters: TelemetryCounters {
            updates_processed: counters.updates_processed,
            regimes_entered: counters.regimes_entered,
            signals_created: counters.signals_created,
            signals_accepted: counters.signals_accepted,
            rejected_circuit: risk.rejected_circuit,
            rejected_exposure: risk.rejected_exposure,
            rejected_half_life: risk.rejected_half_life,
            filter_degraded: counters.filter_degraded,
        },
        venues,
    }
}

} // verus!
