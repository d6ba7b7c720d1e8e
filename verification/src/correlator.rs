//! Latency correlator: fuses cross-venue observations into candidate
//! signals tagged with a predicted convergence horizon.
//!
//! Per (market, venue) top-of-book state lives in a hash table keyed by
//! a packed integer; every emitted signal satisfies the emission rule
//! (non-zero quotes, at least two cents of disparity, at least 50 ms of
//! latency separation, distinct venues) and its predicted convergence
//! horizon never exceeds five seconds.

use vstd::prelude::*;

use crate::fixed::{fadd64, fmul64, fsub64, fdiv64, fneg64, fp_add, fp_div, fp_mul, fp_neg,
    fp_sub, fp_sqrt, fp_abs, sat64, mag_spec};
use crate::kalman::matrix::at2;
use crate::orderbook::{AtomicOrderbook, PriceLevel};
use crate::types::{MarketTier, MarketType, Platform, PriceObservation};

verus! {

/// Packed table key for one (market, venue) stream.
pub open spec fn feed_key_spec(market_id: u16, provider: Platform) -> u64 {
    (market_id as int * 4 + provider.index_spec() as int) as u64
}

fn feed_key(market_id: u16, provider: Platform) -> (r: u64)
    ensures
        r == feed_key_spec(market_id, provider),
{
    market_id as u64 * 4 + provider.index() as u64
}

/// What a `FeedTable` holds: its entries as a map from packed keys to
/// books. Relies on `rustc_hash::FxHashMap`, a `std::collections::HashMap`
/// with a deterministic hasher.
pub uninterp spec fn feed_table_entries(t: FeedTable) -> Map<u64, AtomicOrderbook>;

/// Hash table of per-(market, venue) order books, backed by
/// `rustc_hash::FxHashMap`.
#[verifier::external_body]
pub struct FeedTable {
    table: rustc_hash::FxHashMap<u64, AtomicOrderbook>,
}

impl FeedTable {
    /// Relies on `FxHashMap::default`: a fresh table is empty.
    #[verifier::external_body]
    pub fn new() -> (r: FeedTable)
        ensures
            forall|k: u64| !feed_table_entries(r).contains_key(k),
    {
        FeedTable { table: rustc_hash::FxHashMap::default() }
    }

    /// Relies on `HashMap::insert`: maps `key` to `book`, leaving other
    /// keys untouched.
    #[verifier::external_body]
    pub fn insert(&mut self, key: u64, book: AtomicOrderbook)
        ensures
            feed_table_entries(*final(self)) == feed_table_entries(*old(self)).insert(key, book),
    {
        self.table.insert(key, book);
    }

    /// Relies on `HashMap::get`: returns a copy of the book at `key`
    /// exactly when the key is present.
    #[verifier::external_body]
    pub fn get(&self, key: u64) -> (r: Option<AtomicOrderbook>)
        ensures
            r == if feed_table_entries(*self).contains_key(key) {
                Some(feed_table_entries(*self)[key])
            } else {
                None::<AtomicOrderbook>
            },
    {
        self.table.get(&key).copied()
    }

    /// Relies on `HashMap::iter`: hands out every entry exactly once,
    /// in an unspecified order.
    #[verifier::external_body]
    pub fn entries(&self) -> (r: Vec<(u64, AtomicOrderbook)>)
        ensures
            forall|i: int| 0 <= i < r@.len()
                ==> #[trigger] feed_table_entries(*self).contains_key(r@[i].0)
                    && r@[i].1 == feed_table_entries(*self)[r@[i].0],
            forall|i: int, j: int| 0 <= i < j < r@.len() ==> r@[i].0 != r@[j].0,
            forall|k: u64| #[trigger] feed_table_entries(*self).contains_key(k)
                ==> exists|i: int| 0 <= i < r@.len() && r@[i].0 == k,
    {
        self.table.iter().map(|(k, v)| (*k, *v)).collect()
    }
}

/// Per-market metadata: tier and market type, keyed by market id in an
/// association list; a lookup takes the first entry with the key.
pub struct MarketMeta {
    entries: Vec<(u16, MarketTier, MarketType)>,
}

/// First-match lookup in an association list.
pub open spec fn meta_lookup(es: Seq<(u16, MarketTier, MarketType)>, k: u16)
    -> Option<(MarketTier, MarketType)>
    decreases es.len(),
{
    if es.len() == 0 {
        None
    } else if es[0].0 == k {
        Some((es[0].1, es[0].2))
    } else {
        meta_lookup(es.subrange(1, es.len() as int), k)
    }
}

/// A lookup skips any prefix free of its key.
proof fn lemma_meta_lookup_skip(es: Seq<(u16, MarketTier, MarketType)>, i: int, k: u16)
    requires
        0 <= i <= es.len(),
        forall|j: int| 0 <= j < i ==> es[j].0 != k,
    ensures
        meta_lookup(es, k) == meta_lookup(es.subrange(i, es.len() as int), k),
    decreases i,
{
    if i > 0 {
        assert(es[0].0 != k);
        let rest = es.subrange(1, es.len() as int);
        lemma_meta_lookup_skip(rest, i - 1, k);
        assert(rest.subrange(i - 1, rest.len() as int)
            =~= es.subrange(i, es.len() as int));
    } else {
        assert(es.subrange(0, es.len() as int) =~= es);
    }
}

/// Replacing an entry whose key differs from `k` leaves `k`'s lookup
/// unchanged.
proof fn lemma_meta_lookup_update_other(
    es: Seq<(u16, MarketTier, MarketType)>,
    i: int,
    v: (u16, MarketTier, MarketType),
    k: u16,
)
    requires
        0 <= i < es.len(),
        es[i].0 != k,
        v.0 != k,
    ensures
        meta_lookup(es.update(i, v), k) == meta_lookup(es, k),
    decreases es.len(),
{
    let upd = es.update(i, v);
    if i == 0 {
        assert(upd.subrange(1, upd.len() as int) =~= es.subrange(1, es.len() as int));
    } else {
        if es[0].0 == k {
        } else {
            let rest = es.subrange(1, es.len() as int);
            lemma_meta_lookup_update_other(rest, i - 1, v, k);
            assert(upd.subrange(1, upd.len() as int) =~= rest.update(i - 1, v));
        }
    }
}

impl MarketMeta {
    /// What a lookup of each key returns.
    pub closed spec fn spec_get(&self, k: u16) -> Option<(MarketTier, MarketType)> {
        meta_lookup(self.entries@, k)
    }

    pub fn new() -> (r: Self)
        ensures
            forall|k: u16| r.spec_get(k) == None::<(MarketTier, MarketType)>,
    {
        MarketMeta { entries: Vec::new() }
    }

    /// Record or overwrite a market's tier and type.
    pub fn set(&mut self, market_id: u16, tier: MarketTier, market_type: MarketType)
        ensures
            final(self).spec_get(market_id) == Some((tier, market_type)),
            forall|k: u16| k != market_id
                ==> final(self).spec_get(k) == old(self).spec_get(k),
    {
        let mut i: usize = 0;
        while i < self.entries.len()
            invariant
                i <= self.entries.len(),
                self.entries@ == old(self).entries@,
                forall|j: int| 0 <= j < i ==> self.entries@[j].0 != market_id,
            decreases self.entries.len() - i,
        {
            if self.entries[i].0 == market_id {
                let ghost before = self.entries@;
                self.entries.set(i, (market_id, tier, market_type));
                proof {
                    lemma_meta_lookup_skip(self.entries@, i as int, market_id);
                    let tail = self.entries@.subrange(i as int, self.entries@.len() as int);
                    assert(tail[0].0 == market_id);
                    assert forall|k: u16| k != market_id
                        implies self.spec_get(k) == old(self).spec_get(k) by {
                        lemma_meta_lookup_update_other(
                            before, i as int, (market_id, tier, market_type), k);
                    }
                }
                return;
            }
            i = i + 1;
        }
        let ghost before = self.entries@;
        self.entries.push((market_id, tier, market_type));
        proof {
            lemma_meta_lookup_skip(self.entries@, before.len() as int, market_id);
            let tail = self.entries@.subrange(
                before.len() as int, self.entries@.len() as int);
            assert(tail[0].0 == market_id);
            assert forall|k: u16| k != market_id
                implies self.spec_get(k) == old(self).spec_get(k) by {
                lemma_meta_push_other(before, (market_id, tier, market_type), k);
            }
        }
    }

    /// Look a market up.
    pub fn get(&self, market_id: u16) -> (r: Option<(MarketTier, MarketType)>)
        ensures
            r == self.spec_get(market_id),
    {
        let mut i: usize = 0;
        while i < self.entries.len()
            invariant
                i <= self.entries.len(),
                forall|j: int| 0 <= j < i ==> self.entries@[j].0 != market_id,
            decreases self.entries.len() - i,
        {
            if self.entries[i].0 == market_id {
                let e = self.entries[i];
                proof {
                    lemma_meta_lookup_skip(self.entries@, i as int, market_id);
                    let tail = self.entries@.subrange(i as int, self.entries@.len() as int);
                    assert(tail[0] == self.entries@[i as int]);
                }
                return Some((e.1, e.2));
            }
            i = i + 1;
        }
        proof {
            lemma_meta_lookup_skip(self.entries@, self.entries@.len() as int, market_id);
            assert(self.entries@.subrange(
                self.entries@.len() as int, self.entries@.len() as int).len() == 0);
        }
        None
    }
}

/// Appending an entry with another key leaves a lookup unchanged.
proof fn lemma_meta_push_other(
    es: Seq<(u16, MarketTier, MarketType)>,
    v: (u16, MarketTier, MarketType),
    k: u16,
)
    requires
        v.0 != k,
    ensures
        meta_lookup(es.push(v), k) == meta_lookup(es, k),
    decreases es.len(),
{
    let pushed = es.push(v);
    if es.len() == 0 {
        assert(pushed[0] == v);
        assert(pushed.subrange(1, pushed.len() as int).len() == 0);
        assert(meta_lookup(pushed.subrange(1, pushed.len() as int), k)
            == None::<(MarketTier, MarketType)>);
    } else {
        assert(pushed[0] == es[0]);
        if es[0].0 == k {
        } else {
            let rest = es.subrange(1, es.len() as int);
            lemma_meta_push_other(rest, v, k);
            assert(pushed.subrange(1, pushed.len() as int) =~= rest.push(v));
        }
    }
}

/// Latency disparity signal: a candidate arbitrage, pre-risk.
#[derive(Clone, Copy, Debug, PartialEq, Eq, Structural)]
pub struct LatencySignal {
    /// The observation with the earlier timestamp.
    pub fast_market: PriceObservation,
    /// The observation it is expected to drag along.
    pub slow_market: PriceObservation,
    /// Signed fast-minus-slow price difference in cents.
    pub disparity_cents: i16,
    /// Predicted convergence horizon in nanoseconds.
    pub expected_convergence_ns: u64,
    /// Matched pattern id.
    pub pattern_id: Option<u16>,
    /// Confidence in thousandths (0..=1000).
    pub confidence: u32,
}

/// The rule table: which pattern a (types, tiers, venues) pair matches.
pub open spec fn pattern_spec(
    fast_type: MarketType,
    slow_type: MarketType,
    fast_tier: MarketTier,
    slow_tier: MarketTier,
    fast_provider: Platform,
    slow_provider: Platform,
    price_diff_cents: int,
) -> Option<u16> {
    if fast_type == MarketType::HalfTotal && slow_type == MarketType::Total
        && fast_tier != slow_tier {
        Some(70u16)
    } else if fast_type == MarketType::QuarterTotal && slow_type == MarketType::HalfTotal {
        Some(71u16)
    } else if fast_type == MarketType::AltLine && fast_tier == MarketTier::Tier3 {
        Some(72u16)
    } else if fast_type == MarketType::PlayerProp && slow_type == MarketType::TeamTotal {
        Some(73u16)
    } else if fast_provider != slow_provider {
        Some(74u16)
    } else if fast_type == MarketType::PlayerProp
        && (if price_diff_cents >= 0 { price_diff_cents } else { -price_diff_cents }) > 3 {
        Some(73u16)
    } else if fast_type == MarketType::Moneyline && slow_type == MarketType::PlayerProp {
        Some(87u16)
    } else {
        Some(70u16)
    }
}

/// Identify the arbitrage pattern for a pair of observations.
pub fn identify_arbitrage_pattern(
    fast_obs: &PriceObservation,
    slow_obs: &PriceObservation,
    price_diff_cents: i16,
) -> (r: Option<u16>)
    ensures
        r == pattern_spec(
            fast_obs.market_type,
            slow_obs.market_type,
            fast_obs.tier,
            slow_obs.tier,
            fast_obs.provider,
            slow_obs.provider,
            price_diff_cents as int,
        ),
{
    let magnitude: i32 = if price_diff_cents >= 0 {
        price_diff_cents as i32
    } else {
        -(price_diff_cents as i32)
    };
    if fast_obs.market_type == MarketType::HalfTotal
        && slow_obs.market_type == MarketType::Total && fast_obs.tier != slow_obs.tier {
        Some(70)
    } else if fast_obs.market_type == MarketType::QuarterTotal
        && slow_obs.market_type == MarketType::HalfTotal {
        Some(71)
    } else if fast_obs.market_type == MarketType::AltLine && fast_obs.tier == MarketTier::Tier3 {
        Some(72)
    } else if fast_obs.market_type == MarketType::PlayerProp
        && slow_obs.market_type == MarketType::TeamTotal {
        Some(73)
    } else if fast_obs.provider != slow_obs.provider {
        Some(74)
    } else if fast_obs.market_type == MarketType::PlayerProp && magnitude > 3 {
        Some(73)
    } else if fast_obs.market_type == MarketType::Moneyline
        && slow_obs.market_type == MarketType::PlayerProp {
        Some(87)
    } else {
        Some(70)
    }
}

/// Confidence in thousandths: pattern base times disparity factor times
/// time factor. Derivative patterns (70-79) carry base 0.80, steam and
/// behavioural patterns (80-89) 0.75, anything else 0.60; the disparity
/// factor is `min(|d| / 10, 1)`; the time factor is 1.0 inside
/// [100 ms, 500 ms], 0.8 inside (50 ms, 1 s), else 0.5.
pub open spec fn confidence_spec(pattern_id: u16, price_diff_cents: int, time_diff_ns: u64)
    -> u32 {
    let base: int = if 70 <= pattern_id <= 79 {
        800
    } else if 80 <= pattern_id <= 89 {
        750
    } else {
        600
    };
    let magnitude = if price_diff_cents >= 0 { price_diff_cents } else { -price_diff_cents };
    let disparity_factor: int = if magnitude * 100 < 1000 { magnitude * 100 } else { 1000 };
    let time_factor: int = if 100_000_000 <= time_diff_ns <= 500_000_000 {
        1000
    } else if 50_000_000 < time_diff_ns < 1_000_000_000 {
        800
    } else {
        500
    };
    (base * disparity_factor * time_factor / 1_000_000) as u32
}

/// Confidence score for a matched pattern.
pub fn calculate_pattern_confidence(pattern_id: u16, price_diff_cents: i16, time_diff_ns: u64)
    -> (r: u32)
    ensures
        r == confidence_spec(pattern_id, price_diff_cents as int, time_diff_ns),
        r <= 1000,
{
    let base: u64 = if 70 <= pattern_id && pattern_id <= 79 {
        800
    } else if 80 <= pattern_id && pattern_id <= 89 {
        750
    } else {
        600
    };
    let magnitude: u64 = if price_diff_cents >= 0 {
        price_diff_cents as u64
    } else {
        (-(price_diff_cents as i32)) as u64
    };
    let disparity_factor: u64 = if magnitude * 100 < 1000 {
        magnitude * 100
    } else {
        1000
    };
    let time_factor: u64 = if 100_000_000 <= time_diff_ns && time_diff_ns <= 500_000_000 {
        1000
    } else if 50_000_000 < time_diff_ns && time_diff_ns < 1_000_000_000 {
        800
    } else {
        500
    };
    (base * disparity_factor * time_factor / 1_000_000) as u32
}

/// Predicted convergence horizon for a pair of observations: the mean
/// of the two tiers' half-lives, in nanoseconds.
pub fn predict_convergence_time(fast_obs: &PriceObservation, slow_obs: &PriceObservation)
    -> (r: u64)
    ensures
        r == (fast_obs.tier.half_life_ns_spec() + slow_obs.tier.half_life_ns_spec()) / 2,
        r <= 3_500_000_000,
{
    let a = fast_obs.tier.half_life_ns();
    let b = slow_obs.tier.half_life_ns();
    (a + b) / 2
}

/// The emission rule every signal in the engine satisfies.
pub open spec fn signal_wf(s: LatencySignal) -> bool {
    &&& s.fast_market.price != 0
    &&& s.slow_market.price != 0
    &&& s.fast_market.provider != s.slow_market.provider
    &&& s.pattern_id is Some
    &&& s.fast_market.timestamp_ns <= s.slow_market.timestamp_ns
    &&& s.slow_market.timestamp_ns - s.fast_market.timestamp_ns >= 50_000_000
    &&& (if s.disparity_cents >= 0 { s.disparity_cents as int } else { -(s.disparity_cents as int) })
        >= 2
    &&& s.expected_convergence_ns < 5_000_000_000
    &&& s.confidence <= 1000
}


/// The convergence filter's observation row: the price difference is
/// observed directly.
pub open spec fn conv_obs_row() -> Seq<i64> {
    seq![1_000_000i64, 0i64, 0i64]
}

/// Kinematic convergence filter over `[price_diff, velocity,
/// acceleration]`, used to estimate when a cross-venue disparity will
/// close.
pub struct ConvergenceKalman {
    /// State `[price_diff, velocity, acceleration]`, fixed point.
    pub state: Vec<i64>,
    /// 3x3 covariance, row-major, fixed point.
    pub covariance: Vec<i64>,
    /// Process noise added to the diagonal on predict: 0.01.
    pub process_noise: i64,
    /// Measurement noise on the price difference: 0.1.
    pub measurement_noise: i64,
}

impl ConvergenceKalman {
    pub open spec fn wf(&self) -> bool {
        self.state.len() == 3 && self.covariance.len() == 9
    }

    pub fn new() -> (r: Self)
        ensures
            r.wf(),
            r.state@ == seq![0i64, 0i64, 0i64],
            r.covariance@ == seq![
                1_000_000i64, 0i64, 0i64,
                0i64, 1_000_000i64, 0i64,
                0i64, 0i64, 1_000_000i64,
            ],
            r.process_noise == 10_000i64,
            r.measurement_noise == 100_000i64,
    {
        let mut state: Vec<i64> = Vec::new();
        state.push(0);
        state.push(0);
        state.push(0);
        let mut covariance: Vec<i64> = Vec::new();
        covariance.push(1_000_000);
        covariance.push(0);
        covariance.push(0);
        covariance.push(0);
        covariance.push(1_000_000);
        covariance.push(0);
        covariance.push(0);
        covariance.push(0);
        covariance.push(1_000_000);
        proof {
            assert(state@ =~= seq![0i64, 0i64, 0i64]);
            assert(covariance@ =~= seq![
                1_000_000i64, 0i64, 0i64,
                0i64, 1_000_000i64, 0i64,
                0i64, 0i64, 1_000_000i64,
            ]);
        }
        ConvergenceKalman {
            state,
            covariance,
            process_noise: 10_000,
            measurement_noise: 100_000,
        }
    }

    /// Constant-acceleration kinematic predict over `dt` fixed-point
    /// seconds; process noise joins the covariance diagonal.
    pub fn predict(&mut self, dt: i64)
        requires
            old(self).wf(),
        ensures
            final(self).wf(),
            final(self).state@ == seq![
                fadd64(
                    fadd64(old(self).state@[0], fmul64(old(self).state@[1], dt)),
                    crate::fixed::tdiv64(fmul64(fmul64(old(self).state@[2], dt), dt), 2i64),
                ),
                fadd64(old(self).state@[1], fmul64(old(self).state@[2], dt)),
                old(self).state@[2],
            ],
            forall|k: int| 0 <= k < 9 ==> final(self).covariance@[k]
                == if k == 0 || k == 4 || k == 8 {
                    fadd64(old(self).covariance@[k], old(self).process_noise)
                } else {
                    old(self).covariance@[k]
                },
            final(self).process_noise == old(self).process_noise,
            final(self).measurement_noise == old(self).measurement_noise,
    {
        let x0 = self.state[0];
        let x1 = self.state[1];
        let x2 = self.state[2];
        let half_acc = crate::fixed::div_trunc(fp_mul(fp_mul(x2, dt), dt), 2);
        let nx0 = fp_add(fp_add(x0, fp_mul(x1, dt)), half_acc);
        let nx1 = fp_add(x1, fp_mul(x2, dt));
        self.state.set(0, nx0);
        self.state.set(1, nx1);
        proof {
            assert(self.state@ =~= seq![nx0, nx1, old(self).state@[2]]);
        }
        let c0 = fp_add(self.covariance[0], self.process_noise);
        let c4 = fp_add(self.covariance[4], self.process_noise);
        let c8 = fp_add(self.covariance[8], self.process_noise);
        self.covariance.set(0, c0);
        self.covariance.set(4, c4);
        self.covariance.set(8, c8);
    }

    /// Measurement update with the observed price difference: the
    /// shared Joseph-form scalar step over the observation row
    /// `[1, 0, 0]`, with the one-unit ridge on the innovation
    /// variance and exact symmetrization, so the covariance stays
    /// symmetric. Skipped (returning false) when the ridged
    /// innovation variance is not positive.
    pub fn update(&mut self, measurement: i64) -> (applied: bool)
        requires
            old(self).wf(),
        ensures
            final(self).wf(),
            applied == (crate::kalman::filter::s_fun(
                old(self).covariance@, conv_obs_row(), old(self).measurement_noise, 3) > 0),
            !applied ==> final(self).state@ == old(self).state@
                && final(self).covariance@ == old(self).covariance@,
            applied ==> final(self).state@ == crate::kalman::filter::update_x_fun(
                old(self).covariance@, conv_obs_row(), old(self).measurement_noise,
                old(self).state@, measurement, 3),
            applied ==> final(self).covariance@ == crate::kalman::filter::update_p_fun(
                old(self).covariance@, conv_obs_row(), old(self).measurement_noise, 3),
            applied ==> forall|i: int, j: int| 0 <= i < 3 && 0 <= j < 3
                ==> at2(final(self).covariance@, 3, i, j)
                    == at2(final(self).covariance@, 3, j, i),
            final(self).process_noise == old(self).process_noise,
            final(self).measurement_noise == old(self).measurement_noise,
    {
        let mut h: Vec<i64> = Vec::new();
        h.push(1_000_000);
        h.push(0);
        h.push(0);
        proof {
            assert(h@ =~= conv_obs_row());
        }
        let (new_state, new_cov, applied) = crate::kalman::filter::scalar_joseph_step(
            &self.state, &self.covariance, &h, self.measurement_noise, 3, measurement);
        if applied {
            self.state = new_state;
            self.covariance = new_cov;
        }
        applied
    }

    /// Predicted time until the price difference crosses zero, by the
    /// quadratic of the kinematic state; the smallest positive root is
    /// returned, or zero when the difference is already inside the
    /// threshold.
    pub fn predicted_convergence_time(&self, threshold: i64) -> (r: Option<i64>)
        requires
            self.wf(),
        ensures
            r == Self::convergence_spec(self.state@, threshold),
    {
        let x0 = self.state[0];
        let x1 = self.state[1];
        let x2 = self.state[2];
        if fp_abs(x0) < threshold {
            return Some(0);
        }
        let a = crate::fixed::div_trunc(x2, 2);
        let b = x1;
        let c = x0;
        let discriminant = fp_sub(fp_mul(b, b), fp_mul(fp_mul(fp_mul(a, c), 4_000_000), 1_000_000));
        if discriminant < 0 {
            return None;
        }
        let sqrt_d = fp_sqrt(discriminant);
        let two_a = fp_add(a, a);
        if two_a == 0 {
            if b != 0 {
                let t = signed_div(fp_neg(c), b);
                if t > 0 {
                    return Some(t);
                }
            }
            return None;
        }
        let t1 = signed_div(fp_sub(fp_neg(b), sqrt_d), two_a);
        let t2 = signed_div(fp_add(fp_neg(b), sqrt_d), two_a);
        if t1 > 0 && t2 > 0 {
            Some(if t1 < t2 {
                t1
            } else {
                t2
            })
        } else if t1 > 0 {
            Some(t1)
        } else if t2 > 0 {
            Some(t2)
        } else {
            None
        }
    }

    /// What `predicted_convergence_time` returns.
    pub open spec fn convergence_spec(x: Seq<i64>, threshold: i64) -> Option<i64> {
        let x0 = x[0];
        if crate::fixed::sat64(crate::fixed::mag_spec(x0 as int)) < threshold {
            Some(0i64)
        } else {
            let a = crate::fixed::tdiv64(x[2], 2i64);
            let b = x[1];
            let c = x0;
            let discriminant = fsub64(
                fmul64(b, b), fmul64(fmul64(fmul64(a, c), 4_000_000i64), 1_000_000i64));
            if discriminant < 0 {
                None
            } else {
                let sqrt_d = crate::fixed::sqrt64(discriminant) as i64;
                let two_a = fadd64(a, a);
                if two_a == 0 {
                    if b != 0 {
                        let t = sdiv64(fneg64(c), b);
                        if t > 0 {
                            Some(t)
                        } else {
                            None
                        }
                    } else {
                        None
                    }
                } else {
                    let t1 = sdiv64(fsub64(fneg64(b), sqrt_d), two_a);
                    let t2 = sdiv64(fadd64(fneg64(b), sqrt_d), two_a);
                    if t1 > 0 && t2 > 0 {
                        Some(if t1 < t2 { t1 } else { t2 })
                    } else if t1 > 0 {
                        Some(t1)
                    } else if t2 > 0 {
                        Some(t2)
                    } else {
                        None
                    }
                }
            }
        }
    }
}

/// Fixed-point division by a non-zero divisor of either sign.
pub open spec fn sdiv64(a: i64, b: i64) -> i64 {
    if b > 0 {
        fdiv64(a, b)
    } else {
        fdiv64(fneg64(a), fneg64(b))
    }
}

fn signed_div(a: i64, b: i64) -> (r: i64)
    requires
        b != 0,
    ensures
        r == sdiv64(a, b),
{
    if b > 0 {
        fp_div(a, b)
    } else {
        let nb = fp_neg(b);
        fp_div(fp_neg(a), nb)
    }
}

/// The venue a packed feed key denotes.
pub open spec fn venue_of_key_spec(key: u64) -> Platform {
    if key % 4 == 0 {
        Platform::Kalshi
    } else if key % 4 == 1 {
        Platform::Polymarket
    } else if key % 4 == 2 {
        Platform::DraftKings
    } else {
        Platform::FanDuel
    }
}

/// The market id a packed feed key denotes.
pub open spec fn market_of_key_spec(key: u64) -> u16 {
    (key / 4) as u16
}

fn venue_of_key(key: u64) -> (r: Platform)
    ensures
        r == venue_of_key_spec(key),
        r.index_spec() == key % 4,
{
    let idx = key % 4;
    if idx == 0 {
        Platform::Kalshi
    } else if idx == 1 {
        Platform::Polymarket
    } else if idx == 2 {
        Platform::DraftKings
    } else {
        Platform::FanDuel
    }
}

/// The mean of two tiers' half-lives stays under the five-second
/// horizon bound.
pub open spec fn predict_convergence_spec_bound(a: MarketTier, b: MarketTier) -> bool {
    (a.half_life_ns_spec() + b.half_life_ns_spec()) / 2 < 5_000_000_000
}

/// The observation one side of a book pair contributes to a signal.
pub open spec fn key_observation(key: u64, book: AtomicOrderbook, meta: (MarketTier, MarketType))
    -> PriceObservation {
    PriceObservation {
        market_id: market_of_key_spec(key),
        provider: venue_of_key_spec(key),
        market_type: meta.1,
        price: book.yes_level().price,
        size: book.yes_level().size,
        timestamp_ns: book.yes_level().timestamp_ns,
        tier: meta.0,
    }
}

/// The separation in time of two books' YES quotes.
pub open spec fn pair_time_diff(book_a: AtomicOrderbook, book_b: AtomicOrderbook) -> int {
    let ta = book_a.yes_level().timestamp_ns;
    let tb = book_b.yes_level().timestamp_ns;
    if ta >= tb {
        ta - tb
    } else {
        tb - ta
    }
}

/// The emission rule for one ordered pair of book entries: distinct
/// venues on distinct markets (ordered by market id), metadata known
/// for both, both YES quotes present, a disparity of at least two
/// cents (and within the sixteen-bit range), and legs at least 50 ms
/// apart.
pub open spec fn pair_qualifies(
    ka: u64,
    book_a: AtomicOrderbook,
    kb: u64,
    book_b: AtomicOrderbook,
    meta_a: Option<(MarketTier, MarketType)>,
    meta_b: Option<(MarketTier, MarketType)>,
) -> bool {
    let pa = book_a.yes_level().price;
    let pb = book_b.yes_level().price;
    let diff = pa - pb;
    let mag = if diff >= 0 { diff } else { -diff };
    &&& market_of_key_spec(ka) < market_of_key_spec(kb)
    &&& venue_of_key_spec(ka) != venue_of_key_spec(kb)
    &&& meta_a is Some
    &&& meta_b is Some
    &&& pa != 0
    &&& pb != 0
    &&& 2 <= mag <= 30_000
    &&& pair_time_diff(book_a, book_b) >= 50_000_000
}

/// The signal a qualifying pair emits: the earlier leg is the fast
/// market, the disparity is fast minus slow, the horizon is the mean
/// tier half-life, and the confidence follows the pattern formula.
pub open spec fn pair_signal(
    ka: u64,
    book_a: AtomicOrderbook,
    kb: u64,
    book_b: AtomicOrderbook,
    meta_a: (MarketTier, MarketType),
    meta_b: (MarketTier, MarketType),
) -> LatencySignal {
    let obs_a = key_observation(ka, book_a, meta_a);
    let obs_b = key_observation(kb, book_b, meta_b);
    let fast = if obs_a.timestamp_ns < obs_b.timestamp_ns { obs_a } else { obs_b };
    let slow = if obs_a.timestamp_ns < obs_b.timestamp_ns { obs_b } else { obs_a };
    let disparity = fast.price - slow.price;
    let pattern_id = pattern_spec(
        fast.market_type, slow.market_type, fast.tier, slow.tier,
        fast.provider, slow.provider, obs_a.price - obs_b.price);
    LatencySignal {
        fast_market: fast,
        slow_market: slow,
        disparity_cents: disparity as i16,
        expected_convergence_ns: ((fast.tier.half_life_ns_spec()
            + slow.tier.half_life_ns_spec()) / 2) as u64,
        pattern_id,
        confidence: confidence_spec(
            pattern_id->0, disparity, pair_time_diff(book_a, book_b) as u64),
    }
}

/// The emission rule over a book table and market metadata.
pub open spec fn qualifying_pair_in(
    em: Map<u64, AtomicOrderbook>,
    mm: MarketMeta,
    ka: u64,
    kb: u64,
) -> bool {
    &&& em.contains_key(ka)
    &&& em.contains_key(kb)
    &&& pair_qualifies(
        ka, em[ka], kb, em[kb],
        mm.spec_get(market_of_key_spec(ka)), mm.spec_get(market_of_key_spec(kb)))
}

/// The signal a pair of keys emits from a book table and metadata.
pub open spec fn pair_signal_in(
    em: Map<u64, AtomicOrderbook>,
    mm: MarketMeta,
    ka: u64,
    kb: u64,
) -> LatencySignal {
    pair_signal(
        ka, em[ka], kb, em[kb],
        mm.spec_get(market_of_key_spec(ka))->0, mm.spec_get(market_of_key_spec(kb))->0)
}

/// Whether a signal arises from some qualifying pair of a book table
/// and metadata.
pub open spec fn from_pair_in(
    em: Map<u64, AtomicOrderbook>,
    mm: MarketMeta,
    s: LatencySignal,
) -> bool {
    exists|ka: u64, kb: u64| #[trigger] qualifying_pair_in(em, mm, ka, kb)
        && s == pair_signal_in(em, mm, ka, kb)
}

/// Signals kept by the age rule: created at or before `now`, younger
/// than `max_age_ns`, in their original order.
pub open spec fn purged_signals(s: Seq<LatencySignal>, now: u64, max_age_ns: u64)
    -> Seq<LatencySignal>
    decreases s.len(),
{
    if s.len() == 0 {
        s
    } else {
        let rest = purged_signals(s.drop_last(), now, max_age_ns);
        if signal_fresh(s.last(), now, max_age_ns) {
            rest.push(s.last())
        } else {
            rest
        }
    }
}

/// The age rule: a signal is fresh when its fast leg is not from the
/// future and is younger than the age bound.
pub open spec fn signal_fresh(s: LatencySignal, now: u64, max_age_ns: u64) -> bool {
    s.fast_market.timestamp_ns <= now && now - s.fast_market.timestamp_ns < max_age_ns
}

/// Every purged signal was in the buffer.
proof fn lemma_purged_subset(s: Seq<LatencySignal>, now: u64, max_age_ns: u64, i: int)
    requires
        0 <= i < purged_signals(s, now, max_age_ns).len(),
    ensures
        exists|j: int| 0 <= j < s.len()
            && #[trigger] s[j] == purged_signals(s, now, max_age_ns)[i],
    decreases s.len(),
{
    if s.len() > 0 {
        let rest = purged_signals(s.drop_last(), now, max_age_ns);
        if i < rest.len() {
            lemma_purged_subset(s.drop_last(), now, max_age_ns, i);
            let j = choose|j: int| 0 <= j < s.drop_last().len()
                && s.drop_last()[j] == rest[i];
            assert(s[j] == purged_signals(s, now, max_age_ns)[i]);
        } else {
            assert(s[s.len() - 1] == purged_signals(s, now, max_age_ns)[i]);
        }
    }
}

/// Every fresh buffered signal survives the purge.
proof fn lemma_purged_complete(s: Seq<LatencySignal>, now: u64, max_age_ns: u64, j: int)
    requires
        0 <= j < s.len(),
        signal_fresh(s[j], now, max_age_ns),
    ensures
        exists|i: int| 0 <= i < purged_signals(s, now, max_age_ns).len()
            && #[trigger] purged_signals(s, now, max_age_ns)[i] == s[j],
    decreases s.len(),
{
    let p = purged_signals(s, now, max_age_ns);
    if j == s.len() - 1 {
        assert(p[p.len() - 1] == s[j]);
    } else {
        assert(s.drop_last()[j] == s[j]);
        lemma_purged_complete(s.drop_last(), now, max_age_ns, j);
        let rest = purged_signals(s.drop_last(), now, max_age_ns);
        let i = choose|i: int| 0 <= i < rest.len() && rest[i] == s.drop_last()[j];
        assert(p[i] == s[j]);
    }
}

/// The latency arbitrage engine: per-(market, venue) books, per-market
/// metadata, and the buffered candidate signals.
pub struct LatencyArbitrageEngine {
    pub price_feeds: FeedTable,
    pub market_meta: MarketMeta,
    pub signals: Vec<LatencySignal>,
}

impl LatencyArbitrageEngine {
    /// Every buffered signal obeys the emission rule; in particular no
    /// signal's predicted convergence horizon exceeds five seconds.
    pub open spec fn signals_view(&self) -> Seq<LatencySignal> {
        self.signals@
    }

    pub open spec fn signals_ok(&self) -> bool {
        forall|i: int| 0 <= i < self.signals_view().len()
            ==> signal_wf(#[trigger] self.signals_view()[i])
    }

    /// The metadata the engine holds for a key's market.
    pub open spec fn meta_of_key(&self, k: u64) -> Option<(MarketTier, MarketType)> {
        self.market_meta.spec_get(market_of_key_spec(k))
    }

    /// Whether the engine's current books at two keys form a
    /// qualifying pair under the emission rule.
    pub open spec fn qualifying_pair(&self, ka: u64, kb: u64) -> bool {
        qualifying_pair_in(feed_table_entries(self.price_feeds), self.market_meta, ka, kb)
    }

    /// The signal the engine's current books at two keys emit.
    pub open spec fn pair_signal_of(&self, ka: u64, kb: u64) -> LatencySignal {
        pair_signal_in(feed_table_entries(self.price_feeds), self.market_meta, ka, kb)
    }

    /// Whether a signal is in the buffer.
    pub open spec fn has_signal(&self, s: LatencySignal) -> bool {
        exists|i: int| 0 <= i < self.signals_view().len()
            && #[trigger] self.signals_view()[i] == s
    }

    /// Whether a signal arises from some qualifying pair of the
    /// engine's current books.
    pub open spec fn from_current_pair(&self, s: LatencySignal) -> bool {
        from_pair_in(feed_table_entries(self.price_feeds), self.market_meta, s)
    }

    pub fn new() -> (r: Self)
        ensures
            r.signals_ok(),
            r.signals_view() == Seq::<LatencySignal>::empty(),
            forall|k: u64| !feed_table_entries(r.price_feeds).contains_key(k),
            forall|k: u16| r.market_meta.spec_get(k) == None::<(MarketTier, MarketType)>,
    {
        let r = LatencyArbitrageEngine {
            price_feeds: FeedTable::new(),
            market_meta: MarketMeta::new(),
            signals: Vec::new(),
        };
        proof {
            assert(r.signals_view() =~= Seq::<LatencySignal>::empty());
        }
        r
    }

    /// Feed one observation in: the (market, venue) book takes the
    /// YES level under the monotonic-timestamp rule, the market's
    /// metadata is refreshed, and the correlation scan runs for the
    /// new timestamp. Afterwards every buffered signal obeys the
    /// emission rule and is younger than 30 s; every qualifying fresh
    /// pair of the resulting books has its signal buffered, and every
    /// buffered signal is either inherited or arises from such a pair.
    pub fn add_price_observation(&mut self, obs: PriceObservation)
        requires
            old(self).signals_ok(),
        ensures
            final(self).signals_ok(),
            forall|i: int| 0 <= i < final(self).signals_view().len()
                ==> signal_fresh(
                    #[trigger] final(self).signals_view()[i], obs.timestamp_ns, 30_000_000_000u64),
            final(self).market_meta.spec_get(obs.market_id)
                == Some((obs.tier, obs.market_type)),
            forall|k: u16| k != obs.market_id
                ==> final(self).market_meta.spec_get(k) == old(self).market_meta.spec_get(k),
            feed_table_entries(final(self).price_feeds).contains_key(
                feed_key_spec(obs.market_id, obs.provider)),
            ({
                let key = feed_key_spec(obs.market_id, obs.provider);
                let em_old = feed_table_entries(old(self).price_feeds);
                let empty = PriceLevel { price: 0, size: 0, timestamp_ns: 0 };
                let prior_yes = if em_old.contains_key(key) {
                    em_old[key].yes_level()
                } else {
                    empty
                };
                let prior_no = if em_old.contains_key(key) {
                    em_old[key].no_level()
                } else {
                    empty
                };
                let book = feed_table_entries(final(self).price_feeds)[key];
                &&& book.no_level() == prior_no
                &&& book.yes_level() == if obs.timestamp_ns > prior_yes.timestamp_ns {
                    PriceLevel {
                        price: obs.price,
                        size: obs.size,
                        timestamp_ns: obs.timestamp_ns,
                    }
                } else {
                    prior_yes
                }
            }),
            forall|k: u64| k != feed_key_spec(obs.market_id, obs.provider)
                ==> feed_table_entries(final(self).price_feeds).contains_key(k)
                    == feed_table_entries(old(self).price_feeds).contains_key(k)
                && (feed_table_entries(old(self).price_feeds).contains_key(k)
                    ==> feed_table_entries(final(self).price_feeds)[k]
                        == feed_table_entries(old(self).price_feeds)[k]),
            forall|i: int| 0 <= i < final(self).signals_view().len()
                ==> (exists|j: int| 0 <= j < old(self).signals_view().len()
                        && old(self).signals_view()[j]
                            == #[trigger] final(self).signals_view()[i])
                    || final(self).from_current_pair(final(self).signals_view()[i]),
            forall|ka: u64, kb: u64|
                #[trigger] final(self).qualifying_pair(ka, kb)
                    && signal_fresh(
                        final(self).pair_signal_of(ka, kb),
                        obs.timestamp_ns,
                        30_000_000_000u64)
                ==> final(self).has_signal(final(self).pair_signal_of(ka, kb)),
    {
        let key = feed_key(obs.market_id, obs.provider);
        let mut book = match self.price_feeds.get(key) {
            Some(b) => b,
            None => AtomicOrderbook::new(),
        };
        book.update_yes(obs.price, obs.size, obs.timestamp_ns);
        self.price_feeds.insert(key, book);
        self.market_meta.set(obs.market_id, obs.tier, obs.market_type);
        proof {
            assert(self.signals_view() == old(self).signals_view());
        }
        self.analyze_correlations(obs.timestamp_ns);
    }

    /// Scan all book pairs for latency disparities and refresh the
    /// signal buffer: a pair yields a signal only when both books have
    /// non-zero quotes, the venues differ, the disparity is at least
    /// two cents, the legs are at least 50 ms apart, and the predicted
    /// convergence horizon is under five seconds; afterwards signals
    /// older than 30 s are purged.
    #[verifier::rlimit(100)]
    fn analyze_correlations(&mut self, timestamp_ns: u64)
        requires
            old(self).signals_ok(),
        ensures
            final(self).signals_ok(),
            forall|i: int| 0 <= i < final(self).signals_view().len()
                ==> signal_fresh(
                    #[trigger] final(self).signals_view()[i], timestamp_ns, 30_000_000_000u64),
            final(self).price_feeds == old(self).price_feeds,
            final(self).market_meta == old(self).market_meta,
            forall|i: int| 0 <= i < final(self).signals_view().len()
                ==> (exists|j: int| 0 <= j < old(self).signals_view().len()
                        && old(self).signals_view()[j]
                            == #[trigger] final(self).signals_view()[i])
                    || final(self).from_current_pair(final(self).signals_view()[i]),
            forall|ka: u64, kb: u64|
                #[trigger] final(self).qualifying_pair(ka, kb)
                    && signal_fresh(
                        final(self).pair_signal_of(ka, kb), timestamp_ns, 30_000_000_000u64)
                ==> final(self).has_signal(final(self).pair_signal_of(ka, kb)),
    {
        proof {
            assert forall|ii: int| 0 <= ii < self.signals@.len()
                implies signal_wf(#[trigger] self.signals@[ii]) by {
                assert(signal_wf(old(self).signals_view()[ii]));
            }
        }
        let ghost em = feed_table_entries(self.price_feeds);
        let ghost mm = self.market_meta;
        proof {
            assert forall|ii: int| 0 <= ii < self.signals@.len()
                implies (exists|j: int| 0 <= j < old(self).signals_view().len()
                        && old(self).signals_view()[j] == #[trigger] self.signals@[ii])
                    || from_pair_in(em, mm, self.signals@[ii]) by {
                assert(old(self).signals_view()[ii] == self.signals@[ii]);
            }
        }
        let entries = self.price_feeds.entries();
        let mut ia: usize = 0;
        while ia < entries.len()
            invariant
                em == feed_table_entries(self.price_feeds),
                mm == self.market_meta,
                forall|idx: int| 0 <= idx < entries@.len()
                    ==> em.contains_key(#[trigger] entries@[idx].0)
                        && entries@[idx].1 == em[entries@[idx].0],
                forall|k: u64| #[trigger] em.contains_key(k)
                    ==> exists|idx: int| 0 <= idx < entries@.len() && entries@[idx].0 == k,
                forall|ii: int| 0 <= ii < self.signals@.len()
                    ==> signal_wf(#[trigger] self.signals@[ii]),
                ia <= entries.len(),
                self.price_feeds == old(self).price_feeds,
                self.market_meta == old(self).market_meta,
                forall|ii: int| 0 <= ii < self.signals@.len()
                    ==> (exists|j: int| 0 <= j < old(self).signals_view().len()
                            && old(self).signals_view()[j] == #[trigger] self.signals@[ii])
                        || from_pair_in(em, mm, self.signals@[ii]),
                forall|x: int, y: int|
                    0 <= x < ia && 0 <= y < entries@.len()
                        && #[trigger] qualifying_pair_in(em, mm, entries@[x].0, entries@[y].0)
                    ==> exists|i: int| 0 <= i < self.signals@.len()
                        && self.signals@[i]
                            == pair_signal_in(em, mm, entries@[x].0, entries@[y].0),
            decreases entries.len() - ia,
        {
            let mut ib: usize = 0;
            while ib < entries.len()
                invariant
                    em == feed_table_entries(self.price_feeds),
                    mm == self.market_meta,
                    forall|idx: int| 0 <= idx < entries@.len()
                        ==> em.contains_key(#[trigger] entries@[idx].0)
                            && entries@[idx].1 == em[entries@[idx].0],
                    forall|k: u64| #[trigger] em.contains_key(k)
                        ==> exists|idx: int| 0 <= idx < entries@.len()
                            && entries@[idx].0 == k,
                    forall|ii: int| 0 <= ii < self.signals@.len()
                        ==> signal_wf(#[trigger] self.signals@[ii]),
                    ia < entries.len(),
                    ib <= entries.len(),
                    self.price_feeds == old(self).price_feeds,
                    self.market_meta == old(self).market_meta,
                    forall|ii: int| 0 <= ii < self.signals@.len()
                        ==> (exists|j: int| 0 <= j < old(self).signals_view().len()
                                && old(self).signals_view()[j] == #[trigger] self.signals@[ii])
                            || from_pair_in(em, mm, self.signals@[ii]),
                    forall|x: int, y: int|
                        0 <= x < ia && 0 <= y < entries@.len()
                            && #[trigger] qualifying_pair_in(
                                em, mm, entries@[x].0, entries@[y].0)
                        ==> exists|i: int| 0 <= i < self.signals@.len()
                            && self.signals@[i]
                                == pair_signal_in(em, mm, entries@[x].0, entries@[y].0),
                    forall|y: int|
                        0 <= y < ib
                            && #[trigger] qualifying_pair_in(
                                em, mm, entries@[ia as int].0, entries@[y].0)
                        ==> exists|i: int| 0 <= i < self.signals@.len()
                            && self.signals@[i] == pair_signal_in(
                                em, mm, entries@[ia as int].0, entries@[y].0),
                decreases entries.len() - ib,
            {
                let (key_a, book_a) = entries[ia];
                let (key_b, book_b) = entries[ib];
                let ghost prevs = self.signals@;
                let market_a: u16 = #[verifier::truncate] ((key_a / 4) as u16);
                let market_b: u16 = #[verifier::truncate] ((key_b / 4) as u16);
                let provider_a = venue_of_key(key_a);
                let provider_b = venue_of_key(key_b);
                let mut emitted = false;
                if market_a < market_b && provider_a != provider_b {
                    let meta_a = self.market_meta.get(market_a);
                    let meta_b = self.market_meta.get(market_b);
                    if let (Some((tier_a, type_a)), Some((tier_b, type_b))) = (meta_a, meta_b) {
                        let level_a = book_a.load_yes();
                        let level_b = book_b.load_yes();
                        if level_a.price != 0 && level_b.price != 0 {
                            let time_diff_ns: u64 = if level_a.timestamp_ns
                                >= level_b.timestamp_ns {
                                level_a.timestamp_ns - level_b.timestamp_ns
                            } else {
                                level_b.timestamp_ns - level_a.timestamp_ns
                            };
                            let price_diff: i32 = level_a.price as i32 - level_b.price as i32;
                            let diff_mag: i32 = if price_diff >= 0 {
                                price_diff
                            } else {
                                -price_diff
                            };
                            if diff_mag >= 2 && diff_mag <= 30_000
                                && time_diff_ns >= 50_000_000 {
                                let obs_a = PriceObservation {
                                    market_id: market_a,
                                    provider: provider_a,
                                    market_type: type_a,
                                    price: level_a.price,
                                    size: level_a.size,
                                    timestamp_ns: level_a.timestamp_ns,
                                    tier: tier_a,
                                };
                                let obs_b = PriceObservation {
                                    market_id: market_b,
                                    provider: provider_b,
                                    market_type: type_b,
                                    price: level_b.price,
                                    size: level_b.size,
                                    timestamp_ns: level_b.timestamp_ns,
                                    tier: tier_b,
                                };
                                proof {
                                    assert(obs_a == key_observation(
                                        key_a, book_a, (tier_a, type_a)));
                                    assert(obs_b == key_observation(
                                        key_b, book_b, (tier_b, type_b)));
                                }
                                let (fast_obs, slow_obs) = if level_a.timestamp_ns
                                    < level_b.timestamp_ns {
                                    (obs_a, obs_b)
                                } else {
                                    (obs_b, obs_a)
                                };
                                let pattern = identify_arbitrage_pattern(
                                    &fast_obs,
                                    &slow_obs,
                                    price_diff as i16,
                                );
                                if let Some(pattern_id) = pattern {
                                    let convergence_ns = predict_convergence_time(
                                        &fast_obs, &slow_obs);
                                    let disparity: i32 = fast_obs.price as i32
                                        - slow_obs.price as i32;
                                    let confidence = calculate_pattern_confidence(
                                        pattern_id,
                                        disparity as i16,
                                        time_diff_ns,
                                    );
                                    if convergence_ns < 5_000_000_000 {
                                        proof {
                                            assert(disparity == price_diff
                                                || disparity == -price_diff);
                                        }
                                        let signal = LatencySignal {
                                            fast_market: fast_obs,
                                            slow_market: slow_obs,
                                            disparity_cents: disparity as i16,
                                            expected_convergence_ns: convergence_ns,
                                            pattern_id: Some(pattern_id),
                                            confidence,
                                        };
                                        proof {
                                            assert(signal.slow_market.timestamp_ns
                                                - signal.fast_market.timestamp_ns
                                                == time_diff_ns);
                                            assert(signal.disparity_cents == disparity);
                                            assert(signal_wf(signal));
                                            assert(em[key_a] == book_a
                                                && em[key_b] == book_b);
                                            assert(qualifying_pair_in(
                                                em, mm, key_a, key_b));
                                            assert(signal == pair_signal_in(
                                                em, mm, key_a, key_b));
                                        }
                                        self.signals.push(signal);
                                        emitted = true;
                                        proof {
                                            assert forall|ii: int|
                                                0 <= ii < self.signals@.len()
                                                implies signal_wf(
                                                    #[trigger] self.signals@[ii]) by {
                                                if ii < prevs.len() {
                                                    assert(self.signals@[ii] == prevs[ii]);
                                                } else {
                                                    assert(self.signals@[ii] == signal);
                                                }
                                            }
                                        }
                                    }
                                }
                            }
                        }
                    }
                }
                proof {
                    if !emitted {
                        assert(!qualifying_pair_in(em, mm, key_a, key_b)) by {
                            if qualifying_pair_in(em, mm, key_a, key_b) {
                                assert(em[key_a] == book_a && em[key_b] == book_b);
                                assert(predict_convergence_spec_bound(
                                    (mm.spec_get(market_of_key_spec(key_a))->0).0,
                                    (mm.spec_get(market_of_key_spec(key_b))->0).0));
                            }
                        }
                    }
                    assert forall|ii: int| 0 <= ii < self.signals@.len()
                        implies (exists|j: int| 0 <= j < old(self).signals_view().len()
                                && old(self).signals_view()[j]
                                    == #[trigger] self.signals@[ii])
                            || from_pair_in(em, mm, self.signals@[ii]) by {
                        if ii < prevs.len() {
                            assert(self.signals@[ii] == prevs[ii]);
                        } else {
                            assert(qualifying_pair_in(em, mm, key_a, key_b)
                                && self.signals@[ii]
                                    == pair_signal_in(em, mm, key_a, key_b));
                        }
                    }
                    assert forall|x: int, y: int|
                        0 <= x < ia + 1 && 0 <= y < entries@.len()
                            && (x < ia || y < ib + 1)
                            && #[trigger] qualifying_pair_in(
                                em, mm, entries@[x].0, entries@[y].0)
                        implies exists|i: int| 0 <= i < self.signals@.len()
                            && self.signals@[i] == pair_signal_in(
                                em, mm, entries@[x].0, entries@[y].0) by {
                        let target = pair_signal_in(em, mm, entries@[x].0, entries@[y].0);
                        if x == ia as int && y == ib as int {
                            assert(emitted);
                            assert(self.signals@[self.signals@.len() - 1] == target);
                        } else {
                            let w = choose|w: int| 0 <= w < prevs.len()
                                && prevs[w] == target;
                            assert(self.signals@[w] == target);
                        }
                    }
                }
                ib = ib + 1;
            }
            ia = ia + 1;
        }
        proof {
            assert forall|ka: u64, kb: u64|
                #[trigger] qualifying_pair_in(em, mm, ka, kb)
                implies exists|i: int| 0 <= i < self.signals@.len()
                    && self.signals@[i] == pair_signal_in(em, mm, ka, kb) by {
                let x = choose|x: int| 0 <= x < entries@.len() && entries@[x].0 == ka;
                let y = choose|y: int| 0 <= y < entries@.len() && entries@[y].0 == kb;
                assert(qualifying_pair_in(em, mm, entries@[x].0, entries@[y].0));
            }
        }
        let ghost mid = self.signals@;
        self.prune_signals(timestamp_ns, 30_000_000_000);
        proof {
            assert forall|ii: int| 0 <= ii < self.signals@.len()
                implies (exists|j: int| 0 <= j < old(self).signals_view().len()
                        && old(self).signals_view()[j] == #[trigger] self.signals@[ii])
                    || from_pair_in(em, mm, self.signals@[ii]) by {
                lemma_purged_subset(mid, timestamp_ns, 30_000_000_000, ii);
            }
            assert forall|ka: u64, kb: u64|
                #[trigger] qualifying_pair_in(em, mm, ka, kb)
                    && signal_fresh(
                        pair_signal_in(em, mm, ka, kb), timestamp_ns, 30_000_000_000u64)
                implies exists|i: int| 0 <= i < self.signals@.len()
                    && self.signals@[i] == pair_signal_in(em, mm, ka, kb) by {
                let target = pair_signal_in(em, mm, ka, kb);
                let w = choose|w: int| 0 <= w < mid.len() && mid[w] == target;
                lemma_purged_complete(mid, timestamp_ns, 30_000_000_000, w);
            }
            assert(feed_table_entries(self.price_feeds) == em);
            assert(self.market_meta == mm);
        }
    }

    /// Drop buffered signals older than `max_age_ns` (or from the
    /// future), keeping the rest in order.
    fn prune_signals(&mut self, current_time: u64, max_age_ns: u64)
        requires
            old(self).signals_ok(),
        ensures
            final(self).signals_ok(),
            final(self).signals_view()
                == purged_signals(old(self).signals_view(), current_time, max_age_ns),
            forall|i: int| 0 <= i < final(self).signals_view().len()
                ==> signal_fresh(
                    #[trigger] final(self).signals_view()[i], current_time, max_age_ns),
            final(self).price_feeds == old(self).price_feeds,
            final(self).market_meta == old(self).market_meta,
    {
        proof {
            assert forall|ii: int| 0 <= ii < self.signals@.len()
                implies signal_wf(#[trigger] self.signals@[ii]) by {
                assert(signal_wf(old(self).signals_view()[ii]));
            }
        }
        let mut kept: Vec<LatencySignal> = Vec::new();
        let mut i: usize = 0;
        while i < self.signals.len()
            invariant
                forall|ii: int| 0 <= ii < self.signals@.len()
                    ==> signal_wf(#[trigger] self.signals@[ii]),
                self.signals@ == old(self).signals@,
                i <= self.signals.len(),
                kept@ == purged_signals(
                    self.signals@.subrange(0, i as int), current_time, max_age_ns),
                forall|j: int| 0 <= j < kept@.len() ==> signal_wf(#[trigger] kept@[j]),
                forall|j: int| 0 <= j < kept@.len()
                    ==> signal_fresh(#[trigger] kept@[j], current_time, max_age_ns),
            decreases self.signals.len() - i,
        {
            let s = self.signals[i];
            proof {
                assert(signal_wf(self.signals@[i as int]));
                let pre = self.signals@.subrange(0, i as int);
                let cur = self.signals@.subrange(0, i as int + 1);
                assert(cur.drop_last() =~= pre);
                assert(cur.last() == self.signals@[i as int]);
            }
            if s.fast_market.timestamp_ns <= current_time
                && current_time - s.fast_market.timestamp_ns < max_age_ns {
                kept.push(s);
            }
            i = i + 1;
        }
        proof {
            assert(self.signals@.subrange(0, self.signals@.len() as int) =~= self.signals@);
        }
        self.signals = kept;
    }

    /// Purge signals older than the given bound.
    pub fn clear_old_signals(&mut self, current_time: u64, max_age_ns: u64)
        requires
            old(self).signals_ok(),
        ensures
            final(self).signals_ok(),
            final(self).signals_view()
                == purged_signals(old(self).signals_view(), current_time, max_age_ns),
            final(self).price_feeds == old(self).price_feeds,
            final(self).market_meta == old(self).market_meta,
    {
        self.prune_signals(current_time, max_age_ns);
    }

    /// The buffered signals.
    pub fn get_signals(&self) -> (r: &Vec<LatencySignal>)
        ensures
            r@ == self.signals_view(),
    {
        &self.signals
    }
}

} // verus!
