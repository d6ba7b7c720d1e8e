//! Risk gate: circuit breakers, the per-venue exposure ledger,
//! half-life decay screening and anti-fingerprinting sizing. A signal
//! traverses the gates in order and the first failure rejects it.

use vstd::prelude::*;

use crate::correlator::LatencySignal;
use crate::execution::{
    EdgeDecayModel, FillProbabilityEstimator, remaining_millis_spec, fill_probability_spec,
};
use crate::types::{MarketType, Platform, SizeCents};

verus! {

/// Risk configuration, integer units throughout.
pub struct RiskConfig {
    /// Maximum net exposure magnitude per venue, cents.
    pub per_venue_limit_cents: i64,
    /// Fraction of the initial edge below which a decayed signal is
    /// rejected, thousandths.
    pub half_life_floor_milli: u32,
    /// Consecutive failures that open a venue's breaker.
    pub circuit_failure_threshold: u32,
    /// Cool-off before an open breaker admits a probe, nanoseconds.
    pub circuit_cool_off_ns: u64,
    /// Maximum order size as a fraction of market volume, thousandths.
    pub max_order_fraction_milli: u32,
}

impl RiskConfig {
    pub open spec fn wf(&self) -> bool {
        &&& self.per_venue_limit_cents > 0
        &&& self.circuit_failure_threshold >= 1
        &&& self.max_order_fraction_milli <= 1000
        &&& self.half_life_floor_milli <= 1000
    }

    /// Defaults: a 1000-dollar venue limit, a 30% decay floor, five
    /// failures to open a breaker, a 60 s cool-off, and 5% of volume
    /// per order.
    pub fn new_default() -> (r: Self)
        ensures
            r.wf(),
            r.per_venue_limit_cents == 100_000,
            r.half_life_floor_milli == 300,
            r.circuit_failure_threshold == 5,
            r.circuit_cool_off_ns == 60_000_000_000,
            r.max_order_fraction_milli == 50,
    {
        RiskConfig {
            per_venue_limit_cents: 100_000,
            half_life_floor_milli: 300,
            circuit_failure_threshold: 5,
            circuit_cool_off_ns: 60_000_000_000,
            max_order_fraction_milli: 50,
        }
    }
}

/// Circuit breaker state.
#[derive(Clone, Copy, Debug, PartialEq, Eq, Structural)]
pub enum CircuitState {
    /// Normal operation.
    Closed,
    /// Tripped: trades rejected until the cool-off passes.
    Open,
    /// Probing: one trade admitted; success closes, failure reopens.
    HalfOpen,
}

/// Per-venue circuit breaker.
#[derive(Clone, Copy, Debug, PartialEq, Eq, Structural)]
pub struct ProviderCircuitBreaker {
    pub provider: Platform,
    pub state: CircuitState,
    pub failure_count: u32,
    pub last_failure_ns: u64,
    pub success_count: u32,
}

impl ProviderCircuitBreaker {
    /// At or past the failure threshold the breaker is never closed.
    pub open spec fn state_invariant(&self, threshold: u32) -> bool {
        self.failure_count >= threshold ==> self.state != CircuitState::Closed
    }

    pub fn new(provider: Platform) -> (r: Self)
        ensures
            r.provider == provider,
            r.state == CircuitState::Closed,
            r.failure_count == 0,
            r.success_count == 0,
            forall|th: u32| th >= 1 ==> r.state_invariant(th),
    {
        ProviderCircuitBreaker {
            provider,
            state: CircuitState::Closed,
            failure_count: 0,
            last_failure_ns: 0,
            success_count: 0,
        }
    }

    /// A success resets the consecutive-failure count, and a success
    /// during a half-open probe closes the breaker.
    pub fn record_success(&mut self)
        ensures
            final(self).failure_count == 0,
            final(self).state == if old(self).state == CircuitState::HalfOpen {
                CircuitState::Closed
            } else {
                old(self).state
            },
            final(self).success_count == if old(self).success_count < u32::MAX {
                (old(self).success_count + 1) as u32
            } else {
                u32::MAX
            },
            final(self).provider == old(self).provider,
            final(self).last_failure_ns == old(self).last_failure_ns,
            forall|th: u32| th >= 1 ==> final(self).state_invariant(th),
    {
        if self.success_count < u32::MAX {
            self.success_count = self.success_count + 1;
        }
        self.failure_count = 0;
        if matches!(self.state, CircuitState::HalfOpen) {
            self.state = CircuitState::Closed;
        }
    }

    /// A failure advances the consecutive-failure count; reaching the
    /// threshold opens a closed breaker, and any failure during a
    /// half-open probe reopens it. Afterwards a count at or past the
    /// threshold never leaves the breaker closed.
    pub fn record_failure(&mut self, now_ns: u64, threshold: u32)
        requires
            threshold >= 1,
        ensures
            final(self).failure_count == if old(self).failure_count < u32::MAX {
                (old(self).failure_count + 1) as u32
            } else {
                u32::MAX
            },
            final(self).last_failure_ns == now_ns,
            final(self).state == if old(self).state == CircuitState::HalfOpen {
                CircuitState::Open
            } else if old(self).state == CircuitState::Closed
                && final(self).failure_count >= threshold {
                CircuitState::Open
            } else {
                old(self).state
            },
            final(self).state_invariant(threshold),
            final(self).provider == old(self).provider,
            final(self).success_count == old(self).success_count,
    {
        if self.failure_count < u32::MAX {
            self.failure_count = self.failure_count + 1;
        }
        self.last_failure_ns = now_ns;
        if matches!(self.state, CircuitState::HalfOpen) {
            self.state = CircuitState::Open;
        } else if matches!(self.state, CircuitState::Closed)
            && self.failure_count >= threshold {
            self.state = CircuitState::Open;
        }
    }

    /// Whether a trade may pass now. Closed and half-open breakers
    /// admit trades; an open breaker admits a single probe once the
    /// cool-off since the last failure has passed, moving to half-open.
    pub fn allow_trade(&mut self, now_ns: u64, cool_off_ns: u64) -> (r: bool)
        ensures
            r == (old(self).state != CircuitState::Open
                || (now_ns >= old(self).last_failure_ns
                    && now_ns - old(self).last_failure_ns > cool_off_ns)),
            final(self).state == if old(self).state == CircuitState::Open && r {
                CircuitState::HalfOpen
            } else {
                old(self).state
            },
            final(self).failure_count == old(self).failure_count,
            final(self).last_failure_ns == old(self).last_failure_ns,
            final(self).provider == old(self).provider,
            final(self).success_count == old(self).success_count,
            forall|th: u32| old(self).state_invariant(th) ==> final(self).state_invariant(th),
    {
        match self.state {
            CircuitState::Closed => true,
            CircuitState::HalfOpen => true,
            CircuitState::Open => {
                if now_ns >= self.last_failure_ns
                    && now_ns - self.last_failure_ns > cool_off_ns {
                    self.state = CircuitState::HalfOpen;
                    true
                } else {
                    false
                }
            },
        }
    }
}

/// Per-venue net exposure ledger, cents, indexed by venue.
pub struct ExposureLedger {
    net_cents: Vec<i64>,
}

impl ExposureLedger {
    pub closed spec fn net_spec(&self, venue: Platform) -> i64 {
        self.net_cents@[venue.index_spec() as int]
    }

    pub closed spec fn wf(&self) -> bool {
        self.net_cents.len() == 4
    }

    pub fn new() -> (r: Self)
        ensures
            r.wf(),
            forall|v: Platform| r.net_spec(v) == 0i64,
    {
        let mut net_cents: Vec<i64> = Vec::new();
        net_cents.push(0);
        net_cents.push(0);
        net_cents.push(0);
        net_cents.push(0);
        let r = ExposureLedger { net_cents };
        proof {
            assert forall|v: Platform| r.net_spec(v) == 0i64 by {
                assert(v.index_spec() < 4);
            }
        }
        r
    }

    /// Current net exposure on a venue.
    pub fn net_exposure(&self, venue: Platform) -> (r: i64)
        requires
            self.wf(),
        ensures
            r == self.net_spec(venue),
    {
        let idx = venue.index();
        self.net_cents[idx as usize]
    }

    /// Whether a further `size` on `venue` stays within the limit:
    /// `|net| + size <= limit`.
    pub open spec fn admits(&self, venue: Platform, size: SizeCents, limit: i64) -> bool {
        (if self.net_spec(venue) >= 0 {
            self.net_spec(venue) as int
        } else {
            -(self.net_spec(venue) as int)
        }) + size <= limit
    }

    /// Record an approved intent's size against a venue, directed by
    /// the trade side. Succeeds exactly when the limit admits it, and
    /// afterwards the venue's net exposure magnitude is within the
    /// limit.
    pub fn record_intent(&mut self, venue: Platform, size: SizeCents, buy: bool, limit: i64)
        -> (r: Result<(), RiskRejectionReason>)
        requires
            old(self).wf(),
            limit > 0,
        ensures
            final(self).wf(),
            r is Ok <==> old(self).admits(venue, size, limit),
            r is Err ==> r == Err::<(), RiskRejectionReason>(RiskRejectionReason::ExposureLimit)
                && *final(self) == *old(self),
            r is Ok ==> final(self).net_spec(venue) == if buy {
                (old(self).net_spec(venue) + size) as i64
            } else {
                (old(self).net_spec(venue) - size) as i64
            },
            r is Ok ==> (if final(self).net_spec(venue) >= 0 {
                final(self).net_spec(venue) as int
            } else {
                -(final(self).net_spec(venue) as int)
            }) <= limit,
            forall|v: Platform| v != venue ==> final(self).net_spec(v) == old(self).net_spec(v),
    {
        let idx = venue.index() as usize;
        let net = self.net_cents[idx];
        if net == i64::MIN {
            proof {
                assert(!old(self).admits(venue, size, limit));
            }
            return Err(RiskRejectionReason::ExposureLimit);
        }
        let mag: i64 = if net >= 0 {
            net
        } else {
            -net
        };
        if mag > limit - size as i64 {
            proof {
                assert(!old(self).admits(venue, size, limit));
            }
            return Err(RiskRejectionReason::ExposureLimit);
        }
        let updated: i64 = if buy {
            net + size as i64
        } else {
            net - size as i64
        };
        self.net_cents.set(idx, updated);
        proof {
            assert forall|v: Platform| v != venue
                implies self.net_spec(v) == old(self).net_spec(v) by {
                assert(v.index_spec() != venue.index_spec());
            }
        }
        Ok(())
    }

    /// Apply a signed execution fill to a venue, as an execution
    /// report does after the fact.
    pub fn apply_fill(&mut self, venue: Platform, delta_cents: i64)
        requires
            old(self).wf(),
            -1_000_000_000_000 <= old(self).net_spec(venue) + delta_cents
                <= 1_000_000_000_000,
            -1_000_000_000_000 <= old(self).net_spec(venue) <= 1_000_000_000_000,
        ensures
            final(self).wf(),
            final(self).net_spec(venue) == old(self).net_spec(venue) + delta_cents,
            forall|v: Platform| v != venue ==> final(self).net_spec(v) == old(self).net_spec(v),
    {
        let idx = venue.index() as usize;
        let net = self.net_cents[idx];
        self.net_cents.set(idx, net + delta_cents);
        proof {
            assert forall|v: Platform| v != venue
                implies self.net_spec(v) == old(self).net_spec(v) by {
                assert(v.index_spec() != venue.index_spec());
            }
        }
    }
}

/// An approved intent stays inside the venue limit: if the ledger
/// admits `size` on a venue, then applying the full size in either
/// direction leaves the venue's net exposure magnitude at or below the
/// limit.
pub proof fn lemma_exposure_within_limit(net: i64, size: SizeCents, limit: i64)
    requires
        (if net >= 0 { net as int } else { -(net as int) }) + size <= limit,
    ensures
        (if net + size >= 0 { net + size } else { -(net + size) }) <= limit,
        (if net - size >= 0 { net - size } else { -(net - size) }) <= limit,
{
}

/// Anti-fingerprinting order sizer with exponentially smoothed market
/// volume estimates per (venue, market type).
pub struct OrderSizer {
    pub volumes: Vec<((Platform, MarketType), u64)>,
    /// Adaptive sizing factor, thousandths.
    pub sizing_factor_milli: u32,
}

/// First-match lookup of a volume estimate.
pub open spec fn volume_lookup(
    es: Seq<((Platform, MarketType), u64)>,
    key: (Platform, MarketType),
) -> Option<u64>
    decreases es.len(),
{
    if es.len() == 0 {
        None
    } else if es[0].0 == key {
        Some(es[0].1)
    } else {
        volume_lookup(es.subrange(1, es.len() as int), key)
    }
}

/// The safe size: the requested size capped at the allowed fraction of
/// estimated volume (scaled by the adaptive factor), floored at 100
/// cents.
pub open spec fn safe_size_spec(
    volume: u64,
    requested: SizeCents,
    max_fraction_milli: u32,
    sizing_factor_milli: u32,
) -> SizeCents {
    let max_safe = volume * max_fraction_milli / 1000;
    let adaptive = max_safe * sizing_factor_milli / 1000;
    let capped: int = if requested <= adaptive {
        requested as int
    } else if adaptive > u32::MAX {
        u32::MAX as int
    } else {
        adaptive as int
    };
    if capped < 100 {
        100u32
    } else {
        capped as u32
    }
}

impl OrderSizer {
    pub open spec fn volumes_view(&self) -> Seq<((Platform, MarketType), u64)> {
        self.volumes@
    }

    /// The estimate used for a key: the stored smoothed volume, or the
    /// 100 000-cent default.
    pub open spec fn volume_of(&self, key: (Platform, MarketType)) -> u64 {
        match volume_lookup(self.volumes_view(), key) {
            Some(v) => v,
            None => 100_000u64,
        }
    }

    pub fn new() -> (r: Self)
        ensures
            r.sizing_factor_milli == 1000,
            forall|key: (Platform, MarketType)| r.volume_of(key) == 100_000u64,
    {
        OrderSizer { volumes: Vec::new(), sizing_factor_milli: 1000 }
    }

    fn get_volume(&self, provider: Platform, market_type: MarketType) -> (r: u64)
        ensures
            r == self.volume_of((provider, market_type)),
    {
        proof {
            assert(self.volumes@.subrange(0, self.volumes@.len() as int) =~= self.volumes@);
        }
        let mut i: usize = 0;
        while i < self.volumes.len()
            invariant
                i <= self.volumes.len(),
                volume_lookup(self.volumes@, (provider, market_type))
                    == volume_lookup(
                        self.volumes@.subrange(i as int, self.volumes@.len() as int),
                        (provider, market_type)),
            decreases self.volumes.len() - i,
        {
            let e = self.volumes[i];
            proof {
                let tail = self.volumes@.subrange(i as int, self.volumes@.len() as int);
                assert(tail[0] == self.volumes@[i as int]);
                assert(tail.subrange(1, tail.len() as int)
                    =~= self.volumes@.subrange(i as int + 1, self.volumes@.len() as int));
            }
            if e.0.0 == provider && e.0.1 == market_type {
                proof {
                    assert(self.volumes@[i as int].0 == (provider, market_type));
                }
                return e.1;
            }
            proof {
                assert(self.volumes@[i as int].0 != (provider, market_type));
            }
            i = i + 1;
        }
        proof {
            assert(self.volumes@.subrange(
                self.volumes@.len() as int, self.volumes@.len() as int).len() == 0);
        }
        100_000
    }

    /// Safe order size for a venue and market type.
    pub fn calculate_safe_size(&self, provider: Platform, market_type: MarketType,
        requested: SizeCents, max_fraction_milli: u32) -> (r: SizeCents)
        requires
            max_fraction_milli <= 1000,
            self.sizing_factor_milli <= 1000,
        ensures
            r == safe_size_spec(
                self.volume_of((provider, market_type)),
                requested,
                max_fraction_milli,
                self.sizing_factor_milli,
            ),
            r >= 100,
    {
        let volume = self.get_volume(provider, market_type);
        proof {
            assert((volume as int) * (max_fraction_milli as int)
                <= (u64::MAX as int) * 1000) by (nonlinear_arith)
                requires max_fraction_milli <= 1000u32, volume <= u64::MAX;
            assert((volume as int) * (max_fraction_milli as int) / 1000
                <= ((u64::MAX as int) * 1000) / 1000) by (nonlinear_arith)
                requires
                    (volume as int) * (max_fraction_milli as int)
                        <= (u64::MAX as int) * 1000,
            ;
        }
        let wide: u128 = (volume as u128) * (max_fraction_milli as u128) / 1000;
        let max_safe: u64 = wide as u64;
        proof {
            assert((max_safe as int) * (self.sizing_factor_milli as int)
                <= (u64::MAX as int) * 1000) by (nonlinear_arith)
                requires self.sizing_factor_milli <= 1000u32, max_safe <= u64::MAX;
            assert((max_safe as int) * (self.sizing_factor_milli as int) / 1000
                <= ((u64::MAX as int) * 1000) / 1000) by (nonlinear_arith)
                requires
                    (max_safe as int) * (self.sizing_factor_milli as int)
                        <= (u64::MAX as int) * 1000,
            ;
        }
        let wide2: u128 = (max_safe as u128) * (self.sizing_factor_milli as u128) / 1000;
        let adaptive: u64 = wide2 as u64;
        let capped: u32 = if (requested as u64) <= adaptive {
            requested
        } else if adaptive > u32::MAX as u64 {
            u32::MAX
        } else {
            adaptive as u32
        };
        if capped < 100 {
            100
        } else {
            capped
        }
    }

    /// Fold an observed volume into the exponentially smoothed
    /// estimate with a smoothing factor of 0.1: the new estimate is
    /// `(9·old + observed) / 10` (an absent key starts from zero).
    pub fn update_volume_estimate(&mut self, provider: Platform, market_type: MarketType,
        observed_volume: u64)
        requires
            observed_volume <= 1_000_000_000_000,
            forall|j: int| 0 <= j < old(self).volumes_view().len()
                ==> (#[trigger] old(self).volumes_view()[j]).1 <= 1_000_000_000_000,
        ensures
            ({
                let key = (provider, market_type);
                let prior: int = match volume_lookup(old(self).volumes_view(), key) {
                    Some(v) => v as int,
                    None => 0,
                };
                volume_lookup(final(self).volumes_view(), key)
                    == Some((((prior * 9 + observed_volume) / 10) as u64))
            }),
            forall|key: (Platform, MarketType)| key != (provider, market_type)
                ==> #[trigger] volume_lookup(final(self).volumes_view(), key)
                    == volume_lookup(old(self).volumes_view(), key),
            final(self).sizing_factor_milli == old(self).sizing_factor_milli,
    {
        let key = (provider, market_type);
        let mut i: usize = 0;
        while i < self.volumes.len()
            invariant
                i <= self.volumes.len(),
                self.volumes@ == old(self).volumes@,
                self.sizing_factor_milli == old(self).sizing_factor_milli,
                observed_volume <= 1_000_000_000_000,
                forall|j: int| 0 <= j < old(self).volumes_view().len()
                    ==> (#[trigger] old(self).volumes_view()[j]).1 <= 1_000_000_000_000,
                forall|j: int| 0 <= j < i ==> self.volumes@[j].0 != key,
                key == (provider, market_type),
            decreases self.volumes.len() - i,
        {
            let e = self.volumes[i];
            if e.0.0 == provider && e.0.1 == market_type {
                proof {
                    lemma_volume_skip(self.volumes@, i as int, key);
                    let tail = self.volumes@.subrange(i as int, self.volumes@.len() as int);
                    assert(tail[0] == self.volumes@[i as int]);
                    assert(self.volumes@[i as int].0 == key);
                }
                let current = e.1;
                proof {
                    assert(old(self).volumes_view()[i as int].1 == current);
                    assert(volume_lookup(old(self).volumes_view(), key) == Some(current));
                }
                let exact: u64 = compute_ema(current, observed_volume);
                let ghost before = self.volumes@;
                self.volumes.set(i, (key, exact));
                proof {
                    lemma_volume_skip(self.volumes@, i as int, key);
                    let tail2 = self.volumes@.subrange(i as int, self.volumes@.len() as int);
                    assert(tail2[0] == self.volumes@[i as int]);
                    assert forall|k2: (Platform, MarketType)| k2 != key
                        implies #[trigger] volume_lookup(self.volumes@, k2)
                            == volume_lookup(before, k2) by {
                        lemma_volume_update_other(before, i as int, (key, exact), k2);
                    }
                }
                return;
            }
            i = i + 1;
        }
        let observed_tenth: u64 = observed_volume / 10;
        let ghost before = self.volumes@;
        self.volumes.push((key, observed_tenth));
        proof {
            lemma_volume_skip(self.volumes@, before.len() as int, key);
            let tail = self.volumes@.subrange(before.len() as int, self.volumes@.len() as int);
            assert(tail[0] == self.volumes@[before.len() as int]);
            lemma_volume_skip(before, before.len() as int, key);
            assert(before.subrange(before.len() as int, before.len() as int).len() == 0);
            assert(volume_lookup(before, key) is None);
            assert forall|k2: (Platform, MarketType)| k2 != key
                implies #[trigger] volume_lookup(self.volumes@, k2)
                    == volume_lookup(before, k2) by {
                lemma_volume_push_other(before, (key, observed_tenth), k2);
            }
        }
    }
}

/// `(9 a + b) / 10` without overflow.
fn compute_ema(a: u64, b: u64) -> (r: u64)
    requires
        a <= 1_000_000_000_000,
        b <= 1_000_000_000_000,
    ensures
        r == (a * 9 + b) / 10,
{
    a * 9 / 10 + b / 10 + (a * 9 % 10 + b % 10) / 10
}

proof fn lemma_volume_skip(es: Seq<((Platform, MarketType), u64)>, i: int,
    key: (Platform, MarketType))
    requires
        0 <= i <= es.len(),
        forall|j: int| 0 <= j < i ==> es[j].0 != key,
    ensures
        volume_lookup(es, key) == volume_lookup(es.subrange(i, es.len() as int), key),
    decreases i,
{
    if i > 0 {
        let rest = es.subrange(1, es.len() as int);
        lemma_volume_skip(rest, i - 1, key);
        assert(rest.subrange(i - 1, rest.len() as int) =~= es.subrange(i, es.len() as int));
    } else {
        assert(es.subrange(0, es.len() as int) =~= es);
    }
}

proof fn lemma_volume_update_other(es: Seq<((Platform, MarketType), u64)>, i: int,
    v: ((Platform, MarketType), u64), k: (Platform, MarketType))
    requires
        0 <= i < es.len(),
        es[i].0 != k,
        v.0 != k,
    ensures
        volume_lookup(es.update(i, v), k) == volume_lookup(es, k),
    decreases es.len(),
{
    let upd = es.update(i, v);
    if i == 0 {
        assert(upd.subrange(1, upd.len() as int) =~= es.subrange(1, es.len() as int));
    } else {
        if es[0].0 == k {
        } else {
            let rest = es.subrange(1, es.len() as int);
            lemma_volume_update_other(rest, i - 1, v, k);
            assert(upd.subrange(1, upd.len() as int) =~= rest.update(i - 1, v));
        }
    }
}

proof fn lemma_volume_push_other(es: Seq<((Platform, MarketType), u64)>,
    v: ((Platform, MarketType), u64), k: (Platform, MarketType))
    requires
        v.0 != k,
    ensures
        volume_lookup(es.push(v), k) == volume_lookup(es, k),
    decreases es.len(),
{
    let pushed = es.push(v);
    if es.len() == 0 {
        assert(pushed[0] == v);
        assert(pushed.subrange(1, pushed.len() as int).len() == 0);
        assert(volume_lookup(pushed.subrange(1, pushed.len() as int), k) is None);
    } else {
        assert(pushed[0] == es[0]);
        if es[0].0 == k {
        } else {
            let rest = es.subrange(1, es.len() as int);
            lemma_volume_push_other(rest, v, k);
            assert(pushed.subrange(1, pushed.len() as int) =~= rest.push(v));
        }
    }
}

/// A risk alert surfaced to telemetry.
#[derive(Clone, Copy, Debug, PartialEq, Eq, Structural)]
pub enum RiskAlert {
    CircuitBreaker { venue: Platform, state: CircuitState },
    ExposureLimit { venue: Platform, exposure_cents: i64, limit_cents: i64 },
    HalfLifeDecay { venue: Platform, remaining_millicents: i64 },
    ProviderFailure { venue: Platform, failure_count: u32 },
}

/// `0.8` raised to the `min(n, 64)`-th power in fixed point: the
/// reliability discount per recorded consecutive failure (sixty-four
/// failures round the discount to nothing).
pub open spec fn pow08(n: int) -> i64
    decreases n,
{
    if n <= 0 {
        1_000_000i64
    } else if n >= 64 {
        crate::fixed::fmul64(800_000i64, pow08(63))
    } else {
        crate::fixed::fmul64(800_000i64, pow08(n - 1))
    }
}

fn pow08_exec(n: u32) -> (r: i64)
    ensures
        r == pow08(n as int),
{
    let steps: u32 = if n > 64 {
        64
    } else {
        n
    };
    proof {
        if n > 64 {
            lemma_pow08_flat(n as int);
        }
    }
    let mut acc: i64 = 1_000_000;
    let mut i: u32 = 0;
    while i < steps
        invariant
            i <= steps,
            steps <= 64,
            acc == pow08(i as int),
        decreases steps - i,
    {
        acc = crate::fixed::fp_mul(800_000, acc);
        i = i + 1;
    }
    acc
}

proof fn lemma_pow08_flat(n: int)
    requires
        n >= 64,
    ensures
        pow08(n) == pow08(64),
    decreases n,
{
    if n > 64 {
        lemma_pow08_flat(n - 1);
    }
}

/// Why the risk gate rejected a signal.
#[derive(Clone, Copy, Debug, PartialEq, Eq, Structural)]
pub enum RiskRejectionReason {
    CircuitBreaker,
    ExposureLimit,
    HalfLifeDecay,
    InsufficientFillProbability,
}

/// An approved, size-bounded trade.
#[derive(Clone, Copy, Debug, PartialEq, Eq, Structural)]
pub struct TradeRiskAssessment {
    pub approved: bool,
    pub recommended_fast_size: SizeCents,
    pub recommended_slow_size: SizeCents,
    /// Delay that maximises expected edge, nanoseconds.
    pub optimal_delay_ns: u64,
    /// Remaining edge at that delay, millicents.
    pub remaining_edge_millicents: u64,
    /// Overall risk score, fixed point in [0, 1]; lower is better.
    pub risk_score: i64,
}

/// The risk score of an approved trade: venue unreliability (the
/// complement of each breaker's `0.8^failures` reliability) weighted
/// 0.3, the complement of the edge (one cent counts 0.01) weighted 0.4
/// and floored at zero, and the complement of the signal confidence
/// weighted 0.3, capped at one.
pub open spec fn risk_score_spec(rel_fast: i64, rel_slow: i64, disparity_cents: i16,
    confidence_milli: u32) -> i64 {
    let term1 = crate::fixed::fmul64(
        crate::fixed::fsub64(2_000_000i64, crate::fixed::fadd64(rel_fast, rel_slow)),
        300_000i64,
    );
    let edge_term = crate::fixed::fsub64(
        1_000_000i64, ((disparity_cents as int) * 10_000) as i64);
    let term2 = crate::fixed::fmul64(
        if edge_term >= 0 { edge_term } else { 0i64 }, 400_000i64);
    let term3 = crate::fixed::fmul64(
        crate::fixed::fsub64(1_000_000i64, ((confidence_milli as int) * 1_000) as i64),
        300_000i64,
    );
    let raw = crate::fixed::fadd64(crate::fixed::fadd64(term1, term2), term3);
    if raw > 1_000_000 {
        1_000_000i64
    } else {
        raw
    }
}


/// Whether a breaker would admit a trade now (the pure form of
/// `allow_trade`).
pub open spec fn breaker_allows(b: ProviderCircuitBreaker, now_ns: u64, cool_off_ns: u64)
    -> bool {
    b.state != CircuitState::Open
        || (now_ns >= b.last_failure_ns && now_ns - b.last_failure_ns > cool_off_ns)
}

/// The breaker after an admission check.
pub open spec fn breaker_after_check(b: ProviderCircuitBreaker, now_ns: u64, cool_off_ns: u64)
    -> ProviderCircuitBreaker {
    if b.state == CircuitState::Open && breaker_allows(b, now_ns, cool_off_ns) {
        ProviderCircuitBreaker { state: CircuitState::HalfOpen, ..b }
    } else {
        b
    }
}

/// The breaker after a success report: the consecutive-failure count
/// resets and a half-open probe closes.
pub open spec fn breaker_after_success(b: ProviderCircuitBreaker) -> ProviderCircuitBreaker {
    ProviderCircuitBreaker {
        failure_count: 0,
        success_count: if b.success_count < u32::MAX {
            (b.success_count + 1) as u32
        } else {
            u32::MAX
        },
        state: if b.state == CircuitState::HalfOpen {
            CircuitState::Closed
        } else {
            b.state
        },
        ..b
    }
}

/// The breaker after a failure report: the count advances, a closed
/// breaker reaching the threshold opens, and a failed half-open probe
/// reopens.
pub open spec fn breaker_after_failure(b: ProviderCircuitBreaker, now_ns: u64, threshold: u32)
    -> ProviderCircuitBreaker {
    let count = if b.failure_count < u32::MAX {
        (b.failure_count + 1) as u32
    } else {
        u32::MAX
    };
    ProviderCircuitBreaker {
        failure_count: count,
        last_failure_ns: now_ns,
        state: if b.state == CircuitState::HalfOpen {
            CircuitState::Open
        } else if b.state == CircuitState::Closed && count >= threshold {
            CircuitState::Open
        } else {
            b.state
        },
        ..b
    }
}

/// The breaker after one execution report of either outcome.
pub open spec fn breaker_after_report(b: ProviderCircuitBreaker, success: bool, now_ns: u64,
    threshold: u32) -> ProviderCircuitBreaker {
    if success {
        breaker_after_success(b)
    } else {
        breaker_after_failure(b, now_ns, threshold)
    }
}

/// The risk gate: converts signals into approved, size-bounded
/// assessments, charging approved sizes against the exposure ledger.
pub struct RiskManagementEngine {
    pub config: RiskConfig,
    pub exposure: ExposureLedger,
    pub breakers: Vec<ProviderCircuitBreaker>,
    pub order_sizer: OrderSizer,
    pub fill_estimator: FillProbabilityEstimator,
    /// Rejections by cause, for telemetry.
    pub rejected_circuit: u64,
    pub rejected_exposure: u64,
    pub rejected_half_life: u64,
    pub approved_count: u64,
}

impl RiskManagementEngine {
    pub open spec fn wf(&self) -> bool {
        &&& self.config.wf()
        &&& self.exposure.wf()
        &&& self.breakers.len() == 4
        &&& forall|i: int| 0 <= i < 4
            ==> (#[trigger] self.breakers@[i]).provider.index_spec() == i
        &&& forall|i: int| 0 <= i < 4
            ==> (#[trigger] self.breakers@[i]).state_invariant(
                self.config.circuit_failure_threshold)
        &&& 1 <= self.fill_estimator.queue_depth_milli <= 1000
        &&& self.order_sizer.sizing_factor_milli <= 1000
    }

    /// The breaker guarding a venue.
    pub open spec fn breaker_of(&self, v: Platform) -> ProviderCircuitBreaker {
        self.breakers@[v.index_spec() as int]
    }

    pub fn new(config: RiskConfig) -> (r: Self)
        requires
            config.wf(),
        ensures
            r.wf(),
            r.config == config,
            forall|v: Platform| r.exposure.net_spec(v) == 0i64,
            forall|v: Platform| (#[trigger] r.breaker_of(v)).state == CircuitState::Closed
                && r.breaker_of(v).failure_count == 0,
            r.rejected_circuit == 0,
            r.rejected_exposure == 0,
            r.rejected_half_life == 0,
            r.approved_count == 0,
    {
        let mut breakers: Vec<ProviderCircuitBreaker> = Vec::new();
        breakers.push(ProviderCircuitBreaker::new(Platform::Kalshi));
        breakers.push(ProviderCircuitBreaker::new(Platform::Polymarket));
        breakers.push(ProviderCircuitBreaker::new(Platform::DraftKings));
        breakers.push(ProviderCircuitBreaker::new(Platform::FanDuel));
        let r = RiskManagementEngine {
            config,
            exposure: ExposureLedger::new(),
            breakers,
            order_sizer: OrderSizer::new(),
            fill_estimator: FillProbabilityEstimator::new(),
            rejected_circuit: 0,
            rejected_exposure: 0,
            rejected_half_life: 0,
            approved_count: 0,
        };
        proof {
            assert forall|v: Platform| (#[trigger] r.breaker_of(v)).state
                == CircuitState::Closed && r.breaker_of(v).failure_count == 0 by {
                assert(v.index_spec() < 4);
            }
        }
        r
    }

    /// The mean half-life the two legs' tiers give a signal.
    pub open spec fn signal_half_life(s: LatencySignal) -> u64 {
        ((s.fast_market.tier.half_life_ns_spec() + s.slow_market.tier.half_life_ns_spec())
            / 2) as u64
    }

    /// The magnitude of a signal's disparity, saturated into i16.
    pub open spec fn disparity_mag(s: LatencySignal) -> i16 {
        if s.disparity_cents == i16::MIN {
            i16::MAX
        } else if s.disparity_cents >= 0 {
            s.disparity_cents
        } else {
            (-(s.disparity_cents as int)) as i16
        }
    }

    /// The millicent floor below which the decayed edge is rejected:
    /// the configured fraction of the initial disparity, or two whole
    /// cents, whichever is larger.
    pub open spec fn decay_floor_millis(&self, s: LatencySignal) -> int {
        let frac = Self::disparity_mag(s) as int * self.config.half_life_floor_milli as int;
        if frac >= 2000 {
            frac
        } else {
            2000
        }
    }

    /// The optimal delay the decay model picks for a signal.
    pub open spec fn signal_optimal_delay(&self, s: LatencySignal) -> u64 {
        let model = crate::execution::EdgeDecayModel {
            half_life_ns: Self::signal_half_life(s),
            initial_edge_cents: Self::disparity_mag(s),
        };
        model.optimal_delay_value(
            self.fill_estimator, s.fast_market.provider, s.slow_market.provider,
            s.fast_market.size)
    }

    /// The edge remaining at that delay, millicents.
    pub open spec fn signal_remaining_millis(&self, s: LatencySignal) -> int {
        crate::execution::remaining_millis_spec(
            Self::disparity_mag(s), Self::signal_half_life(s), self.signal_optimal_delay(s))
    }

    /// The safe size the sizer grants one leg.
    pub open spec fn leg_safe_size(&self, venue: Platform, market_type: MarketType,
        requested: SizeCents) -> SizeCents {
        safe_size_spec(
            self.order_sizer.volume_of((venue, market_type)),
            requested,
            self.config.max_order_fraction_milli,
            self.order_sizer.sizing_factor_milli,
        )
    }

    /// The exposure actually charged for one leg: the safe size capped
    /// at the requested size.
    pub open spec fn leg_charge(&self, venue: Platform, market_type: MarketType,
        requested: SizeCents) -> SizeCents {
        let safe = self.leg_safe_size(venue, market_type, requested);
        if safe <= requested {
            safe
        } else {
            requested
        }
    }

    /// Pass a signal through the gates in order: circuit breakers on
    /// both venues, the exposure limit on both venues, the half-life
    /// decay floor at the optimal execution delay, then sizing. The
    /// first failing gate rejects the signal with its cause; on
    /// approval both legs' safe sizes are charged to the ledger, and
    /// each charged venue's net exposure stays within the limit.
    #[verifier::rlimit(100)]
    pub fn evaluate_trade_risk(&mut self, signal: &LatencySignal, now_ns: u64)
        -> (r: Result<TradeRiskAssessment, RiskRejectionReason>)
        requires
            old(self).wf(),
            crate::correlator::signal_wf(*signal),
        ensures
            final(self).wf(),
            final(self).config == old(self).config,
            ({
                let cool = old(self).config.circuit_cool_off_ns;
                let fast_v = signal.fast_market.provider;
                let slow_v = signal.slow_market.provider;
                let fast_ok = breaker_allows(old(self).breaker_of(fast_v), now_ns, cool);
                let slow_ok = breaker_allows(old(self).breaker_of(slow_v), now_ns, cool);
                &&& (r == Err::<TradeRiskAssessment, RiskRejectionReason>(
                        RiskRejectionReason::CircuitBreaker)) == (!fast_ok || !slow_ok)
                &&& !fast_ok ==> final(self).breaker_of(fast_v) == old(self).breaker_of(fast_v)
                    && final(self).breaker_of(slow_v) == old(self).breaker_of(slow_v)
                    && final(self).rejected_circuit == add_sat(old(self).rejected_circuit)
                &&& fast_ok ==> final(self).breaker_of(fast_v)
                    == breaker_after_check(old(self).breaker_of(fast_v), now_ns, cool)
                &&& (fast_ok && !slow_ok) ==> final(self).breaker_of(slow_v)
                    == old(self).breaker_of(slow_v)
                    && final(self).rejected_circuit == add_sat(old(self).rejected_circuit)
                &&& (fast_ok && slow_ok) ==> final(self).breaker_of(slow_v)
                    == breaker_after_check(old(self).breaker_of(slow_v), now_ns, cool)
                &&& (!fast_ok || !slow_ok) ==> final(self).exposure == old(self).exposure
            }),
            ({
                let fast_v = signal.fast_market.provider;
                let slow_v = signal.slow_market.provider;
                let cool = old(self).config.circuit_cool_off_ns;
                let breakers_ok = breaker_allows(old(self).breaker_of(fast_v), now_ns, cool)
                    && breaker_allows(old(self).breaker_of(slow_v), now_ns, cool);
                let limit = old(self).config.per_venue_limit_cents;
                let exposure_ok = old(self).exposure.admits(
                        fast_v, signal.fast_market.size, limit)
                    && old(self).exposure.admits(slow_v, signal.slow_market.size, limit);
                &&& (r == Err::<TradeRiskAssessment, RiskRejectionReason>(
                        RiskRejectionReason::ExposureLimit)) == (breakers_ok && !exposure_ok)
                &&& (breakers_ok && !exposure_ok)
                    ==> final(self).exposure == old(self).exposure
                        && final(self).rejected_exposure
                            == add_sat(old(self).rejected_exposure)
            }),
            ({
                let fast_v = signal.fast_market.provider;
                let slow_v = signal.slow_market.provider;
                let cool = old(self).config.circuit_cool_off_ns;
                let limit = old(self).config.per_venue_limit_cents;
                let breakers_ok = breaker_allows(old(self).breaker_of(fast_v), now_ns, cool)
                    && breaker_allows(old(self).breaker_of(slow_v), now_ns, cool);
                let exposure_ok = old(self).exposure.admits(
                        fast_v, signal.fast_market.size, limit)
                    && old(self).exposure.admits(slow_v, signal.slow_market.size, limit);
                let decay_ok = old(self).signal_remaining_millis(*signal)
                    >= old(self).decay_floor_millis(*signal);
                &&& (r == Err::<TradeRiskAssessment, RiskRejectionReason>(
                        RiskRejectionReason::HalfLifeDecay))
                    == (breakers_ok && exposure_ok && !decay_ok)
                &&& (r is Ok) == (breakers_ok && exposure_ok && decay_ok)
                &&& (breakers_ok && exposure_ok && !decay_ok)
                    ==> final(self).rejected_half_life
                        == add_sat(old(self).rejected_half_life)
            }),
            r is Ok ==> ({
                let fast_v = signal.fast_market.provider;
                let slow_v = signal.slow_market.provider;
                let limit = old(self).config.per_venue_limit_cents;
                let charge_fast = old(self).leg_charge(
                    fast_v, signal.fast_market.market_type, signal.fast_market.size);
                let charge_slow = old(self).leg_charge(
                    slow_v, signal.slow_market.market_type, signal.slow_market.size);
                let buy_fast = signal.disparity_cents < 0;
                let a = r->Ok_0;
                &&& a.approved
                &&& a.optimal_delay_ns == old(self).signal_optimal_delay(*signal)
                &&& a.remaining_edge_millicents
                    == old(self).signal_remaining_millis(*signal)
                &&& a.recommended_fast_size == if charge_fast >= 100 {
                    charge_fast
                } else {
                    100u32
                }
                &&& a.recommended_slow_size == if charge_slow >= 100 {
                    charge_slow
                } else {
                    100u32
                }
                &&& a.risk_score == risk_score_spec(
                    pow08(old(self).breaker_of(fast_v).failure_count as int),
                    pow08(old(self).breaker_of(slow_v).failure_count as int),
                    signal.disparity_cents,
                    signal.confidence,
                )
                &&& final(self).exposure.net_spec(fast_v) as int == if buy_fast {
                    old(self).exposure.net_spec(fast_v) + charge_fast
                } else {
                    old(self).exposure.net_spec(fast_v) - charge_fast
                }
                &&& final(self).exposure.net_spec(slow_v) as int == if buy_fast {
                    old(self).exposure.net_spec(slow_v) - charge_slow
                } else {
                    old(self).exposure.net_spec(slow_v) + charge_slow
                }
                &&& forall|v: Platform| v != fast_v && v != slow_v
                    ==> final(self).exposure.net_spec(v) == old(self).exposure.net_spec(v)
                &&& final(self).approved_count == add_sat(old(self).approved_count)
                &&& (if final(self).exposure.net_spec(fast_v) >= 0 {
                        final(self).exposure.net_spec(fast_v) as int
                    } else {
                        -(final(self).exposure.net_spec(fast_v) as int)
                    }) <= limit
                &&& (if final(self).exposure.net_spec(slow_v) >= 0 {
                        final(self).exposure.net_spec(slow_v) as int
                    } else {
                        -(final(self).exposure.net_spec(slow_v) as int)
                    }) <= limit
            }),
            r is Err ==> final(self).exposure == old(self).exposure
                && final(self).approved_count == old(self).approved_count,
    {
        let fast_v = signal.fast_market.provider;
        let slow_v = signal.slow_market.provider;
        let cool = self.config.circuit_cool_off_ns;
        let threshold = self.config.circuit_failure_threshold;

        // Gate 1: circuit breakers on both venues.
        let fi = fast_v.index() as usize;
        let mut fast_breaker = self.breakers[fi];
        let fast_ok = fast_breaker.allow_trade(now_ns, cool);
        if !fast_ok {
            if self.rejected_circuit < u64::MAX {
                self.rejected_circuit = self.rejected_circuit + 1;
            }
            return Err(RiskRejectionReason::CircuitBreaker);
        }
        self.breakers.set(fi, fast_breaker);
        proof {
            assert forall|i: int| 0 <= i < 4
                implies (#[trigger] self.breakers@[i]).state_invariant(threshold) by {
                if i != fi {
                    assert(self.breakers@[i] == old(self).breakers@[i]);
                }
            }
        }
        let si = slow_v.index() as usize;
        let mut slow_breaker = self.breakers[si];
        proof {
            assert(fi != si);
            assert(self.breakers@[si as int] == old(self).breakers@[si as int]);
        }
        let slow_ok = slow_breaker.allow_trade(now_ns, cool);
        if !slow_ok {
            if self.rejected_circuit < u64::MAX {
                self.rejected_circuit = self.rejected_circuit + 1;
            }
            return Err(RiskRejectionReason::CircuitBreaker);
        }
        self.breakers.set(si, slow_breaker);
        proof {
            assert forall|i: int| 0 <= i < 4
                implies (#[trigger] self.breakers@[i]).state_invariant(threshold) by {
                if i != fi && i != si {
                    assert(self.breakers@[i] == old(self).breakers@[i]);
                }
            }
        }

        // Gate 2: exposure limits on both venues.
        let limit = self.config.per_venue_limit_cents;
        let fast_net = self.exposure.net_exposure(fast_v);
        let slow_net = self.exposure.net_exposure(slow_v);
        let fast_fits = fits_limit(fast_net, signal.fast_market.size, limit);
        let slow_fits = fits_limit(slow_net, signal.slow_market.size, limit);
        if !fast_fits || !slow_fits {
            if self.rejected_exposure < u64::MAX {
                self.rejected_exposure = self.rejected_exposure + 1;
            }
            return Err(RiskRejectionReason::ExposureLimit);
        }

        // Gate 3: half-life decay at the optimal execution delay.
        let half_life = {
            let a = signal.fast_market.tier.half_life_ns();
            let b = signal.slow_market.tier.half_life_ns();
            (a + b) / 2
        };
        let mag: i16 = if signal.disparity_cents == i16::MIN {
            i16::MAX
        } else if signal.disparity_cents >= 0 {
            signal.disparity_cents
        } else {
            -signal.disparity_cents
        };
        let model = EdgeDecayModel::new(half_life, mag);
        let optimal_delay = model.optimal_execution_time(
            &self.fill_estimator, fast_v, slow_v, signal.fast_market.size);
        let remaining = model.remaining_edge_millicents(optimal_delay);
        proof {
            assert((mag as int) * (self.config.half_life_floor_milli as int)
                <= 32767 * 1000) by (nonlinear_arith)
                requires
                    0 <= mag <= 32767,
                    self.config.half_life_floor_milli <= 1000u32,
            ;
        }
        let frac: u64 = (mag as u64) * (self.config.half_life_floor_milli as u64);
        let floor: u64 = if frac >= 2000 {
            frac
        } else {
            2000
        };
        if remaining < floor {
            if self.rejected_half_life < u64::MAX {
                self.rejected_half_life = self.rejected_half_life + 1;
            }
            return Err(RiskRejectionReason::HalfLifeDecay);
        }

        // Gate 4: anti-fingerprinting sizing, then charge the ledger.
        let safe_fast = self.order_sizer.calculate_safe_size(
            fast_v,
            signal.fast_market.market_type,
            signal.fast_market.size,
            self.config.max_order_fraction_milli,
        );
        let safe_slow = self.order_sizer.calculate_safe_size(
            slow_v,
            signal.slow_market.market_type,
            signal.slow_market.size,
            self.config.max_order_fraction_milli,
        );
        let buy_fast = signal.disparity_cents < 0;
        let charge_fast: u32 = if safe_fast <= signal.fast_market.size {
            safe_fast
        } else {
            signal.fast_market.size
        };
        let charge_slow: u32 = if safe_slow <= signal.slow_market.size {
            safe_slow
        } else {
            signal.slow_market.size
        };
        let res_fast = self.exposure.record_intent(fast_v, charge_fast, buy_fast, limit);
        proof {
            assert(res_fast is Ok);
        }
        let res_slow = self.exposure.record_intent(slow_v, charge_slow, !buy_fast, limit);
        proof {
            assert(res_slow is Ok);
        }
        if self.approved_count < u64::MAX {
            self.approved_count = self.approved_count + 1;
        }
        let rel_fast = pow08_exec(self.breakers[fi].failure_count);
        let rel_slow = pow08_exec(self.breakers[si].failure_count);
        let term1 = crate::fixed::fp_mul(
            crate::fixed::fp_sub(2_000_000, crate::fixed::fp_add(rel_fast, rel_slow)),
            300_000,
        );
        let edge_term = crate::fixed::fp_sub(
            1_000_000, (signal.disparity_cents as i64) * 10_000);
        let term2 = crate::fixed::fp_mul(
            if edge_term >= 0 {
                edge_term
            } else {
                0
            },
            400_000,
        );
        let term3 = crate::fixed::fp_mul(
            crate::fixed::fp_sub(1_000_000, (signal.confidence as i64) * 1_000),
            300_000,
        );
        let raw = crate::fixed::fp_add(crate::fixed::fp_add(term1, term2), term3);
        let risk_score: i64 = if raw > 1_000_000 {
            1_000_000
        } else {
            raw
        };
        Ok(TradeRiskAssessment {
            approved: true,
            recommended_fast_size: charge_fast.max(100),
            recommended_slow_size: charge_slow.max(100),
            optimal_delay_ns: optimal_delay,
            remaining_edge_millicents: remaining,
            risk_score,
        })
    }

    /// Feed an execution report back into the breakers: each involved
    /// venue's breaker takes exactly one success or failure
    /// transition, and no other venue's breaker moves.
    pub fn record_trade_execution(&mut self, fast_v: Platform, slow_v: Platform,
        success: bool, now_ns: u64)
        requires
            old(self).wf(),
        ensures
            final(self).wf(),
            final(self).config == old(self).config,
            final(self).exposure == old(self).exposure,
            ({
                let th = old(self).config.circuit_failure_threshold;
                &&& final(self).breaker_of(fast_v) == breaker_after_report(
                    old(self).breaker_of(fast_v), success, now_ns, th)
                &&& fast_v != slow_v ==> final(self).breaker_of(slow_v)
                    == breaker_after_report(old(self).breaker_of(slow_v), success, now_ns, th)
                &&& forall|v: Platform| v != fast_v && v != slow_v
                    ==> final(self).breaker_of(v) == old(self).breaker_of(v)
            }),
    {
        let threshold = self.config.circuit_failure_threshold;
        let fi = fast_v.index() as usize;
        let mut b = self.breakers[fi];
        if success {
            b.record_success();
        } else {
            b.record_failure(now_ns, threshold);
        }
        self.breakers.set(fi, b);
        proof {
            assert forall|i: int| 0 <= i < 4
                implies (#[trigger] self.breakers@[i]).state_invariant(threshold) by {
                if i != fi {
                    assert(self.breakers@[i] == old(self).breakers@[i]);
                }
            }
        }
        if fast_v != slow_v {
            let si = slow_v.index() as usize;
            let ghost mid = self.breakers@;
            let mut b2 = self.breakers[si];
            if success {
                b2.record_success();
            } else {
                b2.record_failure(now_ns, threshold);
            }
            self.breakers.set(si, b2);
            proof {
                assert forall|i: int| 0 <= i < 4
                    implies (#[trigger] self.breakers@[i]).state_invariant(threshold) by {
                    if i != si {
                        assert(self.breakers@[i] == mid[i]);
                    }
                }
            }
        }
    }

    /// The alerts one venue's state warrants right now: its breaker
    /// state when the breaker is not closed, and its exposure when the
    /// net magnitude exceeds eighty percent of the limit.
    pub open spec fn venue_alerts(&self, v: Platform) -> Seq<RiskAlert> {
        let b = self.breaker_of(v);
        let net = self.exposure.net_spec(v);
        let limit = self.config.per_venue_limit_cents;
        let breaker_part: Seq<RiskAlert> = if b.state != CircuitState::Closed {
            seq![RiskAlert::CircuitBreaker { venue: v, state: b.state }]
        } else {
            Seq::empty()
        };
        let exposure_part: Seq<RiskAlert> = if (if net >= 0 { net as int } else { -(net as int) })
            > limit * 8 / 10 {
            seq![RiskAlert::ExposureLimit { venue: v, exposure_cents: net, limit_cents: limit }]
        } else {
            Seq::empty()
        };
        breaker_part + exposure_part
    }

    /// Sweep the venues for standing risk conditions: one breaker
    /// alert per venue whose circuit is open or probing, and one
    /// exposure alert per venue whose net magnitude exceeds eighty
    /// percent of the limit, in venue order.
    pub fn pending_alerts(&self) -> (r: Vec<RiskAlert>)
        requires
            self.wf(),
        ensures
            r@ == self.venue_alerts(Platform::Kalshi)
                + self.venue_alerts(Platform::Polymarket)
                + self.venue_alerts(Platform::DraftKings)
                + self.venue_alerts(Platform::FanDuel),
    {
        let mut r: Vec<RiskAlert> = Vec::new();
        let all = [
            Platform::Kalshi,
            Platform::Polymarket,
            Platform::DraftKings,
            Platform::FanDuel,
        ];
        let mut i: usize = 0;
        while i < 4
            invariant
                self.wf(),
                i <= 4,
                all@.len() == 4,
                all@[0] == Platform::Kalshi && all@[1] == Platform::Polymarket
                    && all@[2] == Platform::DraftKings && all@[3] == Platform::FanDuel,
                r@ == prefix_alerts(self, all@, i as int),
            decreases 4 - i,
        {
            let v = all[i];
            let idx = v.index() as usize;
            let state = self.breakers[idx].state;
            if !matches!(state, CircuitState::Closed) {
                r.push(RiskAlert::CircuitBreaker { venue: v, state });
            }
            let net = self.exposure.net_exposure(v);
            let limit = self.config.per_venue_limit_cents;
            let mag: i64 = if net == i64::MIN {
                i64::MAX
            } else if net >= 0 {
                net
            } else {
                -net
            };
            let threshold = limit / 10 * 8 + limit % 10 * 8 / 10;
            proof {
                assert(threshold == self.config.per_venue_limit_cents * 8 / 10)
                    by (nonlinear_arith)
                    requires
                        threshold == (self.config.per_venue_limit_cents as int) / 10 * 8
                            + (self.config.per_venue_limit_cents as int) % 10 * 8 / 10,
                        self.config.per_venue_limit_cents > 0,
                ;
            }
            if mag > threshold || net == i64::MIN {
                r.push(RiskAlert::ExposureLimit {
                    venue: v,
                    exposure_cents: net,
                    limit_cents: limit,
                });
            }
            proof {
                assert(r@ =~= prefix_alerts(self, all@, i as int + 1));
            }
            i = i + 1;
        }
        proof {
            reveal_with_fuel(prefix_alerts, 5);
            assert(prefix_alerts(self, all@, 4)
                =~= self.venue_alerts(Platform::Kalshi)
                    + self.venue_alerts(Platform::Polymarket)
                    + self.venue_alerts(Platform::DraftKings)
                    + self.venue_alerts(Platform::FanDuel));
        }
        r
    }

    /// The breaker state of a venue, for telemetry.
    pub fn breaker_state(&self, venue: Platform) -> (r: CircuitState)
        requires
            self.wf(),
        ensures
            r == self.breaker_of(venue).state,
    {
        let idx = venue.index() as usize;
        self.breakers[idx].state
    }
}

/// The alerts of the first `k` venues of a sweep order, concatenated.
pub open spec fn prefix_alerts(engine: &RiskManagementEngine, order: Seq<Platform>, k: int)
    -> Seq<RiskAlert>
    decreases k,
{
    if k <= 0 {
        Seq::empty()
    } else {
        prefix_alerts(engine, order, k - 1) + engine.venue_alerts(order[k - 1])
    }
}

/// Saturating increment, the discipline of every rejection counter.
pub open spec fn add_sat(x: u64) -> u64 {
    if x < u64::MAX {
        (x + 1) as u64
    } else {
        u64::MAX
    }
}

/// Whether `|net| + size <= limit`, the exposure admission rule.
fn fits_limit(net: i64, size: SizeCents, limit: i64) -> (r: bool)
    ensures
        r == ((if net >= 0 { net as int } else { -(net as int) }) + size <= limit),
{
    if net == i64::MIN {
        return false;
    }
    let mag: i64 = if net >= 0 {
        net
    } else {
        -net
    };
    if mag > limit {
        false
    } else {
        limit - mag >= size as i64
    }
}

} // verus!
