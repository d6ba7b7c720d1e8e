//! Execution timing: the half-life edge-decay model, the fill
//! probability estimate, and the delay that maximises expected edge.
//!
//! The decay model is an exact integer form of exponential decay: the
//! edge in millicents is halved once per whole half-life and
//! interpolated linearly within the fraction, so
//! `remaining(0) = edge`, `remaining(h) = edge / 2`, and the value is
//! monotone in the delay.

use vstd::prelude::*;

use crate::correlator::LatencySignal;
use crate::types::{Platform, SizeCents};

verus! {

/// Fill probability for an order, in thousandths.
pub struct FillProbabilityEstimator {
    /// Probability lost per queue position ahead, in thousandths.
    pub queue_depth_milli: u32,
}

/// Base fill rate in thousandths: venue-specific for the benchmark
/// size of 1000 cents, a conservative 0.8 otherwise.
pub open spec fn base_fill_rate(provider: Platform, size: SizeCents) -> u32 {
    if size == 1000 {
        match provider {
            Platform::Kalshi => 950u32,
            Platform::Polymarket => 900u32,
            Platform::DraftKings => 850u32,
            Platform::FanDuel => 800u32,
        }
    } else {
        800u32
    }
}

/// What the estimator returns: the base rate less the queue penalty,
/// clamped to [0.1, 1.0].
pub open spec fn fill_probability_spec(
    provider: Platform,
    size: SizeCents,
    queue_depth: int,
    queue_depth_milli: u32,
) -> u32 {
    let raw = base_fill_rate(provider, size) - queue_depth * queue_depth_milli;
    if raw < 100 {
        100u32
    } else if raw > 1000 {
        1000u32
    } else {
        raw as u32
    }
}

impl FillProbabilityEstimator {
    /// Conservative defaults: two-percent penalty per queue position.
    pub fn new() -> (r: Self)
        ensures
            r.queue_depth_milli == 20,
    {
        FillProbabilityEstimator { queue_depth_milli: 20 }
    }

    /// Estimated fill probability in thousandths.
    pub fn estimate_fill_probability(&self, provider: Platform, size: SizeCents,
        queue_depth: usize) -> (r: u32)
        requires
            queue_depth <= 1_000_000,
            self.queue_depth_milli <= 1000,
        ensures
            r == fill_probability_spec(
                provider, size, queue_depth as int, self.queue_depth_milli),
            100 <= r <= 1000,
    {
        let base: u32 = if size == 1000 {
            match provider {
                Platform::Kalshi => 950,
                Platform::Polymarket => 900,
                Platform::DraftKings => 850,
                Platform::FanDuel => 800,
            }
        } else {
            800
        };
        proof {
            assert((queue_depth as int) * (self.queue_depth_milli as int)
                <= 1_000_000 * 1000) by (nonlinear_arith)
                requires
                    queue_depth <= 1_000_000,
                    self.queue_depth_milli <= 1000,
            ;
        }
        let penalty: u64 = (queue_depth as u64) * (self.queue_depth_milli as u64);
        if penalty >= base as u64 {
            return 100;
        }
        let raw: u32 = base - penalty as u32;
        if raw < 100 {
            100
        } else if raw > 1000 {
            1000
        } else {
            raw
        }
    }
}

/// `m` halved `k` times, truncating.
pub open spec fn halve_n(m: int, k: int) -> int
    decreases k,
{
    if k <= 0 {
        m
    } else {
        halve_n(m, k - 1) / 2
    }
}

proof fn lemma_halve_bound(m: int, k: int)
    requires
        m >= 0,
    ensures
        0 <= halve_n(m, k) <= m,
    decreases k,
{
    if k > 0 {
        lemma_halve_bound(m, k - 1);
    }
}

/// The magnitude of a signed sixteen-bit disparity, saturated.
pub open spec fn sat_mag16(d: i16) -> i16 {
    if d == i16::MIN {
        i16::MAX
    } else if d >= 0 {
        d
    } else {
        (-(d as int)) as i16
    }
}

/// Edge decay by propagation half-life.
pub struct EdgeDecayModel {
    /// Half-life in nanoseconds.
    pub half_life_ns: u64,
    /// Signed edge at creation, in cents.
    pub initial_edge_cents: i16,
}

/// Remaining edge magnitude in millicents after `delay_ns`: the
/// initial magnitude halved once per whole half-life (to nothing after
/// forty), interpolated linearly across the fractional part.
pub open spec fn remaining_millis_spec(edge_cents: i16, half_life_ns: u64, delay_ns: u64)
    -> int {
    let mag = (if edge_cents >= 0 { edge_cents as int } else { -(edge_cents as int) }) * 1000;
    let k = delay_ns as int / half_life_ns as int;
    let rem = delay_ns as int % half_life_ns as int;
    if k >= 40 {
        0
    } else {
        let halved = halve_n(mag, k);
        halved * (2 * half_life_ns - rem) / (2 * half_life_ns)
    }
}

impl EdgeDecayModel {
    pub open spec fn wf(&self) -> bool {
        0 < self.half_life_ns <= 4_000_000_000
    }

    pub fn new(half_life_ns: u64, initial_edge_cents: i16) -> (r: Self)
        requires
            0 < half_life_ns <= 4_000_000_000,
        ensures
            r.wf(),
            r.half_life_ns == half_life_ns,
            r.initial_edge_cents == initial_edge_cents,
    {
        EdgeDecayModel { half_life_ns, initial_edge_cents }
    }

    /// Remaining edge magnitude in millicents after `delay_ns`.
    pub fn remaining_edge_millicents(&self, delay_ns: u64) -> (r: u64)
        requires
            self.wf(),
        ensures
            r == remaining_millis_spec(self.initial_edge_cents, self.half_life_ns, delay_ns),
            r <= (if self.initial_edge_cents >= 0 {
                self.initial_edge_cents as int
            } else {
                -(self.initial_edge_cents as int)
            }) * 1000,
            r <= 32_768_000,
    {
        let mag64: u64 = if self.initial_edge_cents >= 0 {
            self.initial_edge_cents as u64
        } else {
            (-(self.initial_edge_cents as i32)) as u64
        };
        let mag: u64 = mag64 * 1000;
        let k: u64 = delay_ns / self.half_life_ns;
        let rem: u64 = delay_ns % self.half_life_ns;
        if k >= 40 {
            return 0;
        }
        let mut halved: u64 = mag;
        let mut steps: u64 = 0;
        while steps < k
            invariant
                steps <= k,
                k < 40,
                halved == halve_n(mag as int, steps as int),
                halved <= mag,
            decreases k - steps,
        {
            proof {
                lemma_halve_bound(mag as int, steps as int);
            }
            halved = halved / 2;
            steps = steps + 1;
        }
        proof {
            lemma_halve_bound(mag as int, k as int);
            assert(halved * (2 * self.half_life_ns - rem)
                <= 32_768_000 * (2 * 4_000_000_000u64))
                by (nonlinear_arith)
                requires
                    halved <= 32_768_000u64,
                    rem >= 0,
                    2 * self.half_life_ns - rem <= 2 * 4_000_000_000u64,
            ;
            assert(halved * (2 * self.half_life_ns - rem) / (2 * self.half_life_ns) <= halved)
                by (nonlinear_arith)
                requires
                    halved >= 0,
                    0 <= rem < self.half_life_ns,
                    self.half_life_ns > 0,
            ;
        }
        halved * (2 * self.half_life_ns - rem) / (2 * self.half_life_ns)
    }

    /// Remaining signed edge in whole cents after `delay_ns`.
    pub fn remaining_edge(&self, delay_ns: u64) -> (r: i16)
        requires
            self.wf(),
        ensures
            ({
                let m = remaining_millis_spec(
                    self.initial_edge_cents, self.half_life_ns, delay_ns) / 1000;
                r == if self.initial_edge_cents >= 0 { m } else { -m }
            }),
    {
        let m = self.remaining_edge_millicents(delay_ns);
        let cents: u64 = m / 1000;
        proof {
            let mag = (if self.initial_edge_cents >= 0 {
                self.initial_edge_cents as int
            } else {
                -(self.initial_edge_cents as int)
            }) * 1000;
            assert(m / 1000 <= mag / 1000) by (nonlinear_arith)
                requires m <= mag, m >= 0;
            assert(mag / 1000 == if self.initial_edge_cents >= 0 {
                self.initial_edge_cents as int
            } else {
                -(self.initial_edge_cents as int)
            });
        }
        if self.initial_edge_cents >= 0 {
            cents as i16
        } else {
            let neg: i32 = -(cents as i32);
            neg as i16
        }
    }

    /// The score a delay earns: remaining edge times both legs' fill
    /// probabilities (with a queue-depth penalty of at least one
    /// thousandth per position).
    pub open spec fn score_spec(&self, est: FillProbabilityEstimator, fast: Platform,
        slow: Platform, size: SizeCents, delay_ns: u64) -> int {
        let m = remaining_millis_spec(self.initial_edge_cents, self.half_life_ns, delay_ns);
        let q = delay_ns as int / 50_000_000;
        let pf = fill_probability_spec(fast, size, q, est.queue_depth_milli);
        let ps = fill_probability_spec(slow, size, q, est.queue_depth_milli);
        m * pf * ps
    }

    /// The optimal execution delay as a value: the unique grid point
    /// (10 ms steps under twice the half-life) whose score no grid
    /// point beats and that no earlier grid point matches.
    pub open spec fn optimal_delay_value(&self, est: FillProbabilityEstimator, fast: Platform,
        slow: Platform, size: SizeCents) -> u64 {
        choose|t: u64|
            #![trigger self.score_spec(est, fast, slow, size, t)]
            t % 10_000_000 == 0 && t < 2 * self.half_life_ns
                && (forall|u: u64| u % 10_000_000 == 0 && u < 2 * self.half_life_ns
                    ==> #[trigger] self.score_spec(est, fast, slow, size, u)
                        <= self.score_spec(est, fast, slow, size, t))
                && (forall|u: u64| u % 10_000_000 == 0 && u < t
                    ==> #[trigger] self.score_spec(est, fast, slow, size, u)
                        < self.score_spec(est, fast, slow, size, t))
    }

    /// The delay in `[0, 2·half_life)`, at 10 ms granularity, that
    /// maximises remaining edge times fill probability; the earliest
    /// such delay wins ties.
    pub fn optimal_execution_time(&self, est: &FillProbabilityEstimator, fast: Platform,
        slow: Platform, size: SizeCents) -> (r: u64)
        requires
            self.wf(),
            1 <= est.queue_depth_milli <= 1000,
        ensures
            r == self.optimal_delay_value(*est, fast, slow, size),
            r % 10_000_000 == 0,
            r < 2 * self.half_life_ns,
            forall|t: u64| t % 10_000_000 == 0 && t < 2 * self.half_life_ns
                ==> #[trigger] self.score_spec(*est, fast, slow, size, t)
                    <= self.score_spec(*est, fast, slow, size, r),
            forall|t: u64| t % 10_000_000 == 0 && t < r
                ==> #[trigger] self.score_spec(*est, fast, slow, size, t)
                    < self.score_spec(*est, fast, slow, size, r),
    {
        let mut best_time: u64 = 0;
        let mut best_score: u64 = self.score_at(est, fast, slow, size, 0);
        let mut t: u64 = 10_000_000;
        while t < 2 * self.half_life_ns
            invariant
                self.wf(),
                1 <= est.queue_depth_milli <= 1000,
                t % 10_000_000 == 0,
                t <= 2 * self.half_life_ns + 10_000_000,
                best_time % 10_000_000 == 0,
                best_time < t,
                best_time < 2 * self.half_life_ns,
                best_score == self.score_spec(*est, fast, slow, size, best_time),
                forall|u: u64| u % 10_000_000 == 0 && u < t
                    ==> #[trigger] self.score_spec(*est, fast, slow, size, u)
                        <= best_score,
                forall|u: u64| u % 10_000_000 == 0 && u < best_time
                    ==> #[trigger] self.score_spec(*est, fast, slow, size, u) < best_score,
            decreases 2 * self.half_life_ns + 10_000_000 - t,
        {
            let score = self.score_at(est, fast, slow, size, t);
            if score > best_score {
                best_score = score;
                best_time = t;
            }
            t = t + 10_000_000;
        }
        proof {
            let picked = self.optimal_delay_value(*est, fast, slow, size);
            assert(picked % 10_000_000 == 0 && picked < 2 * self.half_life_ns
                && (forall|u: u64| u % 10_000_000 == 0 && u < 2 * self.half_life_ns
                    ==> #[trigger] self.score_spec(*est, fast, slow, size, u)
                        <= self.score_spec(*est, fast, slow, size, picked))
                && (forall|u: u64| u % 10_000_000 == 0 && u < picked
                    ==> #[trigger] self.score_spec(*est, fast, slow, size, u)
                        < self.score_spec(*est, fast, slow, size, picked))) by {
                assert(best_time % 10_000_000 == 0 && best_time < 2 * self.half_life_ns
                    && (forall|u: u64| u % 10_000_000 == 0 && u < 2 * self.half_life_ns
                        ==> #[trigger] self.score_spec(*est, fast, slow, size, u)
                            <= self.score_spec(*est, fast, slow, size, best_time))
                    && (forall|u: u64| u % 10_000_000 == 0 && u < best_time
                        ==> #[trigger] self.score_spec(*est, fast, slow, size, u)
                            < self.score_spec(*est, fast, slow, size, best_time)));
            }
            if picked != best_time {
                if picked < best_time {
                    assert(self.score_spec(*est, fast, slow, size, picked)
                        < self.score_spec(*est, fast, slow, size, best_time));
                    assert(self.score_spec(*est, fast, slow, size, best_time)
                        <= self.score_spec(*est, fast, slow, size, picked));
                } else {
                    assert(self.score_spec(*est, fast, slow, size, best_time)
                        < self.score_spec(*est, fast, slow, size, picked));
                    assert(self.score_spec(*est, fast, slow, size, picked)
                        <= self.score_spec(*est, fast, slow, size, best_time));
                }
            }
        }
        best_time
    }

    fn score_at(&self, est: &FillProbabilityEstimator, fast: Platform, slow: Platform,
        size: SizeCents, delay_ns: u64) -> (r: u64)
        requires
            self.wf(),
            1 <= est.queue_depth_milli <= 1000,
        ensures
            r == self.score_spec(*est, fast, slow, size, delay_ns),
    {
        let m = self.remaining_edge_millicents(delay_ns);
        let q: u64 = delay_ns / 50_000_000;
        let ghost qdi = delay_ns as int / 50_000_000;
        let pf: u32;
        let ps: u32;
        if q > 1_000_000 {
            // A queue this deep drives both legs to the floor.
            pf = 100;
            ps = 100;
            proof {
                assert(qdi * est.queue_depth_milli >= qdi) by (nonlinear_arith)
                    requires qdi >= 1, est.queue_depth_milli >= 1;
                assert(base_fill_rate(fast, size) - qdi * est.queue_depth_milli < 100);
                assert(base_fill_rate(slow, size) - qdi * est.queue_depth_milli < 100);
            }
        } else {
            pf = est.estimate_fill_probability(fast, size, q as usize);
            ps = est.estimate_fill_probability(slow, size, q as usize);
        }
        proof {
            assert((m as int) * (pf as int) <= 32_768_000 * 1000) by (nonlinear_arith)
                requires
                    m <= 32_768_000u64,
                    pf <= 1000u32,
            ;
        }
        let prod: u64 = m * (pf as u64);
        proof {
            assert((prod as int) * (ps as int) <= 32_768_000 * 1000 * 1000)
                by (nonlinear_arith)
                requires
                    prod <= 32_768_000u64 * 1000,
                    ps <= 1000u32,
            ;
        }
        prod * (ps as u64)
    }
}

/// An execution request derived from a signal.
pub struct LatencyExecutionRequest {
    pub signal: LatencySignal,
    pub execution_deadline_ns: u64,
    /// Minimum acceptable fill probability, thousandths.
    pub fill_probability_milli: u32,
    pub max_edge_decay_cents: i16,
}

/// Outcome of one attempted execution.
#[derive(Clone, Debug)]
pub struct LatencyExecutionResult {
    pub signal_id: u64,
    pub success: bool,
    pub fast_fill_price: Option<u16>,
    pub slow_fill_price: Option<u16>,
    pub execution_time_ns: u64,
    pub edge_captured_cents: i16,
    pub edge_decay_cents: i16,
    pub error_message: Option<String>,
}


/// What `optimize_execution_request` decides for a signal at a given
/// instant.
pub open spec fn request_decision_spec(
    signal: LatencySignal,
    est: FillProbabilityEstimator,
    now_ns: u64,
    optimal_delay: u64,
) -> Option<(u64, i16)> {
    let half_life = (signal.fast_market.tier.half_life_ns_spec()
        + signal.slow_market.tier.half_life_ns_spec()) / 2;
    let mag: i16 = if signal.disparity_cents == i16::MIN {
        i16::MAX
    } else if signal.disparity_cents >= 0 {
        signal.disparity_cents
    } else {
        (-(signal.disparity_cents as int)) as i16
    };
    let remaining = remaining_millis_spec(mag, half_life as u64, optimal_delay) / 1000;
    let fill = fill_probability_spec(
        signal.fast_market.provider, signal.fast_market.size, 0, est.queue_depth_milli);
    if remaining < 2 {
        None
    } else if fill < 300 {
        None
    } else {
        Some((optimal_delay, mag))
    }
}

/// Execution scheduling over the signal buffer: holds in-flight
/// requests and cancels the stale ones.
pub struct LatencyExecutionEngine {
    pub fill_estimator: FillProbabilityEstimator,
    pub active_executions: Vec<(u64, LatencyExecutionRequest)>,
    pub next_signal_id: u64,
}

/// The in-flight entries still inside their deadline at `now`, in
/// order.
pub open spec fn live_executions(
    es: Seq<(u64, LatencyExecutionRequest)>,
    now_ns: u64,
) -> Seq<(u64, LatencyExecutionRequest)>
    decreases es.len(),
{
    if es.len() == 0 {
        es
    } else {
        let rest = live_executions(es.drop_last(), now_ns);
        if now_ns > es.last().1.execution_deadline_ns {
            rest
        } else {
            rest.push(es.last())
        }
    }
}

/// The in-flight entries past their deadline at `now`, in order.
pub open spec fn expired_executions(
    es: Seq<(u64, LatencyExecutionRequest)>,
    now_ns: u64,
) -> Seq<(u64, LatencyExecutionRequest)>
    decreases es.len(),
{
    if es.len() == 0 {
        es
    } else {
        let rest = expired_executions(es.drop_last(), now_ns);
        if now_ns > es.last().1.execution_deadline_ns {
            rest.push(es.last())
        } else {
            rest
        }
    }
}

impl LatencyExecutionEngine {
    pub fn new() -> (r: Self)
        ensures
            r.active_executions@.len() == 0,
            r.next_signal_id == 0,
            r.fill_estimator.queue_depth_milli == 20,
    {
        LatencyExecutionEngine {
            fill_estimator: FillProbabilityEstimator::new(),
            active_executions: Vec::new(),
            next_signal_id: 0,
        }
    }

    /// Turn a signal into a timed execution request, or drop it: the
    /// delay is the optimum of the decay model, the deadline that
    /// delay plus the signal's convergence horizon, and the signal is
    /// dropped when under two cents would remain at execution or the
    /// fast leg's fill probability is under 0.3.
    pub fn optimize_execution_request(&self, signal: &LatencySignal, now_ns: u64)
        -> (r: Option<LatencyExecutionRequest>)
        requires
            1 <= self.fill_estimator.queue_depth_milli <= 1000,
            now_ns < 0x4000_0000_0000_0000,
            signal.expected_convergence_ns < 0x4000_0000_0000_0000,
        ensures
            ({
                let mag = sat_mag16(signal.disparity_cents);
                let half = ((signal.fast_market.tier.half_life_ns_spec()
                    + signal.slow_market.tier.half_life_ns_spec()) / 2) as u64;
                let model = EdgeDecayModel { half_life_ns: half, initial_edge_cents: mag };
                let delay = model.optimal_delay_value(
                    self.fill_estimator,
                    signal.fast_market.provider,
                    signal.slow_market.provider,
                    signal.fast_market.size,
                );
                let rem_cents = remaining_millis_spec(mag, half, delay) / 1000;
                let fill = fill_probability_spec(
                    signal.fast_market.provider,
                    signal.fast_market.size,
                    0,
                    self.fill_estimator.queue_depth_milli,
                );
                &&& (r is Some) == (rem_cents >= 2 && fill >= 300)
                &&& r is Some ==> {
                    let req = r->0;
                    &&& req.signal == *signal
                    &&& req.execution_deadline_ns
                        == now_ns + delay + signal.expected_convergence_ns
                    &&& req.fill_probability_milli == 500
                    &&& req.max_edge_decay_cents as int == if mag / 2 >= 1 { mag / 2 } else { 1 }
                }
            }),
    {
        let a = signal.fast_market.tier.half_life_ns();
        let b = signal.slow_market.tier.half_life_ns();
        let half_life = (a + b) / 2;
        let mag: i16 = if signal.disparity_cents == i16::MIN {
            i16::MAX
        } else if signal.disparity_cents >= 0 {
            signal.disparity_cents
        } else {
            -signal.disparity_cents
        };
        let model = EdgeDecayModel::new(half_life, mag);
        let optimal_delay = model.optimal_execution_time(
            &self.fill_estimator,
            signal.fast_market.provider,
            signal.slow_market.provider,
            signal.fast_market.size,
        );
        let remaining = model.remaining_edge(optimal_delay);
        if remaining < 2 {
            return None;
        }
        let fill = self.fill_estimator.estimate_fill_probability(
            signal.fast_market.provider, signal.fast_market.size, 0);
        if fill < 300 {
            return None;
        }
        let execution_time = now_ns + optimal_delay;
        let deadline = execution_time + signal.expected_convergence_ns;
        let half_mag: i16 = mag / 2;
        let max_decay: i16 = if half_mag >= 1 {
            half_mag
        } else {
            1
        };
        Some(LatencyExecutionRequest {
            signal: *signal,
            execution_deadline_ns: deadline,
            fill_probability_milli: 500,
            max_edge_decay_cents: max_decay,
        })
    }

    /// Track an in-flight request under a fresh signal id.
    pub fn submit(&mut self, request: LatencyExecutionRequest) -> (id: u64)
        ensures
            id == old(self).next_signal_id,
            final(self).next_signal_id == if old(self).next_signal_id < u64::MAX {
                (old(self).next_signal_id + 1) as u64
            } else {
                u64::MAX
            },
            final(self).active_executions@
                == old(self).active_executions@.push((id, request)),
    {
        let id = self.next_signal_id;
        if self.next_signal_id < u64::MAX {
            self.next_signal_id = self.next_signal_id + 1;
        }
        self.active_executions.push((id, request));
        id
    }

    /// Cancel in-flight requests past their deadline: only live ones
    /// stay tracked, in order, and each expired one comes back as a
    /// failed result carrying its id, the cancellation time, its full
    /// edge as decay, and a deadline-exceeded message.
    pub fn monitor_executions(&mut self, now_ns: u64) -> (cancelled: Vec<LatencyExecutionResult>)
        ensures
            final(self).active_executions@
                == live_executions(old(self).active_executions@, now_ns),
            final(self).next_signal_id == old(self).next_signal_id,
            cancelled@.len()
                == expired_executions(old(self).active_executions@, now_ns).len(),
            forall|i: int| 0 <= i < cancelled@.len() ==> ({
                let e = expired_executions(old(self).active_executions@, now_ns)[i];
                &&& (#[trigger] cancelled@[i]).signal_id == e.0
                &&& !cancelled@[i].success
                &&& cancelled@[i].fast_fill_price is None
                &&& cancelled@[i].slow_fill_price is None
                &&& cancelled@[i].execution_time_ns == now_ns
                &&& cancelled@[i].edge_captured_cents == 0
                &&& cancelled@[i].edge_decay_cents == sat_mag16(e.1.signal.disparity_cents)
                &&& cancelled@[i].error_message is Some
                &&& (cancelled@[i].error_message->0)@ == "execution deadline exceeded"@
            }),
    {
        let mut kept: Vec<(u64, LatencyExecutionRequest)> = Vec::new();
        let mut cancelled: Vec<LatencyExecutionResult> = Vec::new();
        let mut i: usize = 0;
        while i < self.active_executions.len()
            invariant
                i <= self.active_executions.len(),
                self.active_executions@ == old(self).active_executions@,
                kept@ == live_executions(
                    self.active_executions@.subrange(0, i as int), now_ns),
                cancelled@.len() == expired_executions(
                    self.active_executions@.subrange(0, i as int), now_ns).len(),
                forall|j: int| 0 <= j < cancelled@.len() ==> ({
                    let e = expired_executions(
                        self.active_executions@.subrange(0, i as int), now_ns)[j];
                    &&& (#[trigger] cancelled@[j]).signal_id == e.0
                    &&& !cancelled@[j].success
                    &&& cancelled@[j].fast_fill_price is None
                    &&& cancelled@[j].slow_fill_price is None
                    &&& cancelled@[j].execution_time_ns == now_ns
                    &&& cancelled@[j].edge_captured_cents == 0
                    &&& cancelled@[j].edge_decay_cents
                        == sat_mag16(e.1.signal.disparity_cents)
                    &&& cancelled@[j].error_message is Some
                    &&& (cancelled@[j].error_message->0)@
                        == "execution deadline exceeded"@
                }),
            decreases self.active_executions.len() - i,
        {
            proof {
                let pre = self.active_executions@.subrange(0, i as int);
                let cur = self.active_executions@.subrange(0, i as int + 1);
                assert(cur.drop_last() =~= pre);
                assert(cur.last() == self.active_executions@[i as int]);
            }
            let expired = {
                let entry = &self.active_executions[i];
                now_ns > entry.1.execution_deadline_ns
            };
            if expired {
                let (signal_id, decay) = {
                    let entry = &self.active_executions[i];
                    let d = entry.1.signal.disparity_cents;
                    let mag: i16 = if d == i16::MIN {
                        i16::MAX
                    } else if d >= 0 {
                        d
                    } else {
                        -d
                    };
                    (entry.0, mag)
                };
                cancelled.push(LatencyExecutionResult {
                    signal_id,
                    success: false,
                    fast_fill_price: None,
                    slow_fill_price: None,
                    execution_time_ns: now_ns,
                    edge_captured_cents: 0,
                    edge_decay_cents: decay,
                    error_message: Some("execution deadline exceeded".to_owned()),
                });
                proof {
                    let pre = expired_executions(
                        self.active_executions@.subrange(0, i as int), now_ns);
                    let cur = expired_executions(
                        self.active_executions@.subrange(0, i as int + 1), now_ns);
                    assert forall|j: int| 0 <= j < cancelled@.len()
                        implies 0 <= j < cur.len() && (
                            (#[trigger] cancelled@[j]).signal_id == cur[j].0) by {
                        if j < pre.len() {
                            assert(cur[j] == pre[j]);
                        }
                    }
                }
            } else {
                let entry = (self.active_executions[i].0, LatencyExecutionRequest {
                    signal: self.active_executions[i].1.signal,
                    execution_deadline_ns: self.active_executions[i].1.execution_deadline_ns,
                    fill_probability_milli: self.active_executions[i].1.fill_probability_milli,
                    max_edge_decay_cents: self.active_executions[i].1.max_edge_decay_cents,
                });
                proof {
                    assert(entry == self.active_executions@[i as int]);
                }
                kept.push(entry);
            }
            i = i + 1;
        }
        proof {
            assert(self.active_executions@.subrange(0, self.active_executions@.len() as int)
                =~= self.active_executions@);
        }
        self.active_executions = kept;
        cancelled
    }

    /// How many requests are in flight.
    pub fn get_execution_stats(&self) -> (r: usize)
        ensures
            r == self.active_executions@.len(),
    {
        self.active_executions.len()
    }
}

} // verus!
