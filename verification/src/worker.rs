//! Edge worker: one tick in, one filtered response out.
//!
//! The worker validates a request, loads or cold-starts the pattern's
//! filter from the checkpoint store, folds the tick through predict
//! and update, evaluates the trigger rule, persists the new state, and
//! reports metrics. All prices and sizes are fixed-point units.

use vstd::prelude::*;

use crate::checkpoint::{MockRedisClient, RedisStateManager};
use crate::codec::FilterState;
use crate::fixed::{
    fadd64, fmul64, fsub64, fdiv64, sat64, mag_spec, fp_add, fp_mul, fp_sub, fp_div, fp_abs,
};
use crate::kalman::filter::{predict_x_fun, predict_p_fun, s_fun, update_x_fun, update_p_fun};
use crate::kalman::matrix::at2;
use crate::kalman::patterns::{
    KalmanFilterFactory, PatternFilter, pattern_dim, pattern_f, pattern_h, pattern_q_quiet,
    pattern_r, zero_x, diag_mat,
};
use crate::types::Regime;

verus! {

/// Worker request payload.
pub struct WorkerRequest {
    pub pattern_id: u16,
    pub market_id: String,
    pub tick: TickData,
    pub timestamp_ns: u64,
    pub request_id: String,
}

/// One tick: price and size in fixed-point units, plus routing labels.
pub struct TickData {
    pub price: i64,
    pub size: i64,
    pub book: String,
    pub platform: String,
    pub market_type: String,
}

/// Worker processing status.
#[derive(Clone, Debug)]
pub enum WorkerStatus {
    Success,
    FilterNotFound,
    InvalidData,
    Error(String),
}

/// A trade trigger produced by the filter.
pub struct TriggerData {
    pub pattern_id: u16,
    pub book: String,
    pub target_price: i64,
    pub expected_edge: i64,
    /// Confidence in fixed-point units of one.
    pub confidence: i64,
    /// Window duration in fixed-point seconds.
    pub window_duration: i64,
    pub size: i64,
}

/// Worker response.
pub struct WorkerResponse {
    pub request_id: String,
    pub status: WorkerStatus,
    pub trigger: Option<TriggerData>,
    /// Wall-clock cost of the request in microseconds. The library has
    /// no clock: processing returns zero here and the host measuring
    /// around the call fills it in.
    pub processing_time_us: u64,
    pub filter_state: FilterState,
}

/// Worker performance counters.
#[derive(Clone, Copy, Debug, PartialEq, Eq, Structural)]
pub struct WorkerMetrics {
    pub total_requests: u64,
    pub successful_requests: u64,
    pub triggers_generated: u64,
    pub cache_hits: u64,
    pub cache_misses: u64,
}

/// Position sizing strategy, fixed-point parameters.
#[derive(Clone, Copy, Debug)]
pub enum PositionSizing {
    Fixed(i64),
    Kelly { multiplier: i64 },
    Percentage(i64),
}

/// Worker configuration.
pub struct WorkerConfig {
    /// Processing budget in microseconds.
    pub max_processing_time_us: u64,
    pub enable_persistence: bool,
    pub cache_size_limit: usize,
    /// Minimum edge that triggers, fixed point (0.5 by default).
    pub trigger_threshold: i64,
    pub position_sizing: PositionSizing,
}

impl WorkerConfig {
    /// Defaults: a 10 ms budget, persistence on, a half-point trigger
    /// threshold, and half-Kelly sizing.
    pub fn new_default() -> (r: Self)
        ensures
            r.max_processing_time_us == 10_000,
            r.enable_persistence,
            r.cache_size_limit == 1000,
            r.trigger_threshold == 500_000i64,
            r.position_sizing is Kelly,
    {
        WorkerConfig {
            max_processing_time_us: 10_000,
            enable_persistence: true,
            cache_size_limit: 1000,
            trigger_threshold: 500_000,
            position_sizing: PositionSizing::Kelly { multiplier: 500_000 },
        }
    }
}

/// Worker environment handed in by the host.
pub struct WorkerEnvironment {
    pub bet_queue_url: String,
    pub kv_store: MockRedisClient,
}

/// Whether a request is acceptable: a registered pattern id, a named
/// market, and a strictly positive price and size.
pub open spec fn request_valid(req: &WorkerRequest) -> bool {
    &&& req.pattern_id != 0
    &&& req.market_id@.len() != 0
    &&& req.tick.price > 0
    &&& req.tick.size > 0
}

/// Position size for an edge and confidence under a sizing strategy.
pub open spec fn position_size_spec(sizing: PositionSizing, confidence: i64) -> i64 {
    match sizing {
        PositionSizing::Fixed(s) => s,
        PositionSizing::Kelly { multiplier } => {
            let kelly = fmul64(
                fsub64(fmul64(confidence, 2_000_000i64), 1_000_000i64), multiplier);
            let raw = fmul64(kelly, 1_000_000_000i64);
            if raw < 10_000_000i64 {
                10_000_000i64
            } else if raw > 1_000_000_000i64 {
                1_000_000_000i64
            } else {
                raw
            }
        },
        PositionSizing::Percentage(p) => fmul64(10_000_000_000i64, p),
    }
}

/// Trigger window duration per pattern, fixed-point seconds.
pub open spec fn window_duration_spec(pattern_id: u16) -> i64 {
    if pattern_id == 51 {
        30_000_000i64
    } else if pattern_id == 68 || pattern_id == 75 {
        5_000_000i64
    } else if pattern_id == 56 {
        1_000_000i64
    } else {
        10_000_000i64
    }
}

/// Trigger confidence: edge against uncertainty, clamped to
/// [0.05, 0.95], with 0.5 when the uncertainty is not positive.
pub open spec fn trigger_confidence_spec(edge: i64, uncertainty: i64) -> i64 {
    if uncertainty > 0 {
        let q = fdiv64(edge, uncertainty);
        if q > 950_000i64 {
            950_000i64
        } else if q < 50_000i64 {
            50_000i64
        } else {
            q
        }
    } else {
        500_000i64
    }
}

/// The trigger rule as a relation: what `evaluate_trigger_conditions`
/// returns for a filter position and uncertainty against a request.
pub open spec fn trigger_matches(t: Option<TriggerData>, position: i64, uncertainty: i64,
    request: &WorkerRequest, threshold: i64, sizing: PositionSizing) -> bool {
    let edge = sat64(mag_spec(fsub64(position, request.tick.price) as int)) as i64;
    &&& (t is Some) == (edge >= threshold)
    &&& t is Some ==> {
        let td = t->0;
        &&& td.pattern_id == request.pattern_id
        &&& td.target_price == position
        &&& td.expected_edge == edge
        &&& td.confidence == trigger_confidence_spec(edge, uncertainty)
        &&& td.window_duration == window_duration_spec(request.pattern_id)
        &&& td.size == position_size_spec(sizing, trigger_confidence_spec(edge, uncertainty))
        &&& td.book@ == request.tick.book@
    }
}

/// Whether a pattern id has a registered filter.
pub open spec fn worker_pattern_known(pattern_id: u16) -> bool {
    pattern_id == 51 || pattern_id == 68 || pattern_id == 75 || pattern_id == 56
}

/// The state vector a fresh pattern filter holds after one predict and
/// one measurement update with the tick's price.
pub open spec fn worker_filter_x(pattern_id: u16, price: i64) -> Seq<i64> {
    let n = pattern_dim(pattern_id);
    let f = pattern_f(pattern_id, 50_000);
    let h = pattern_h(pattern_id);
    let q = pattern_q_quiet(pattern_id);
    let r = pattern_r(pattern_id);
    let x1 = predict_x_fun(f, zero_x(n), n);
    let p1 = predict_p_fun(f, diag_mat(n, 100_000_000), q, n);
    if s_fun(p1, h, r, n) > 0 {
        update_x_fun(p1, h, r, x1, price, n)
    } else {
        x1
    }
}

/// The covariance after the same predict and update.
pub open spec fn worker_filter_p(pattern_id: u16, price: i64) -> Seq<i64> {
    let n = pattern_dim(pattern_id);
    let f = pattern_f(pattern_id, 50_000);
    let h = pattern_h(pattern_id);
    let q = pattern_q_quiet(pattern_id);
    let r = pattern_r(pattern_id);
    let p1 = predict_p_fun(f, diag_mat(n, 100_000_000), q, n);
    if s_fun(p1, h, r, n) > 0 {
        update_p_fun(p1, h, r, n)
    } else {
        p1
    }
}

/// The worker.
pub struct BunWorker {
    pub filter_factory: KalmanFilterFactory,
    pub state_manager: RedisStateManager,
    pub metrics: WorkerMetrics,
    pub config: WorkerConfig,
}

impl BunWorker {
    pub open spec fn wf(&self) -> bool {
        self.state_manager.wf()
    }

    pub fn new(config: WorkerConfig) -> (r: Self)
        ensures
            r.wf(),
            r.metrics.total_requests == 0,
            r.metrics.successful_requests == 0,
            r.metrics.triggers_generated == 0,
            r.config == config,
    {
        let prefix: String = "kf_state".to_owned();
        BunWorker {
            filter_factory: KalmanFilterFactory,
            state_manager: RedisStateManager::new(prefix, 3600),
            metrics: WorkerMetrics {
                total_requests: 0,
                successful_requests: 0,
                triggers_generated: 0,
                cache_hits: 0,
                cache_misses: 0,
            },
            config,
        }
    }

    /// Accept or reject a request: rejected with `InvalidData` exactly
    /// when the pattern id is zero, the market is unnamed, or the
    /// price or size is not positive.
    pub fn validate_request(&self, request: &WorkerRequest) -> (r: Result<(), WorkerStatus>)
        ensures
            r is Ok <==> request_valid(request),
            r is Err ==> (r->Err_0) is InvalidData,
    {
        if request.pattern_id == 0 {
            return Err(WorkerStatus::InvalidData);
        }
        if request.market_id.as_str().is_empty() {
            return Err(WorkerStatus::InvalidData);
        }
        if request.tick.price <= 0 {
            return Err(WorkerStatus::InvalidData);
        }
        if request.tick.size <= 0 {
            return Err(WorkerStatus::InvalidData);
        }
        Ok(())
    }

    /// Position size under the configured strategy.
    pub fn calculate_position_size(&self, _edge: i64, confidence: i64) -> (r: i64)
        ensures
            r == position_size_spec(self.config.position_sizing, confidence),
    {
        match self.config.position_sizing {
            PositionSizing::Fixed(s) => s,
            PositionSizing::Kelly { multiplier } => {
                let kelly = fp_mul(fp_sub(fp_mul(confidence, 2_000_000), 1_000_000), multiplier);
                let raw = fp_mul(kelly, 1_000_000_000);
                if raw < 10_000_000 {
                    10_000_000
                } else if raw > 1_000_000_000 {
                    1_000_000_000
                } else {
                    raw
                }
            },
            PositionSizing::Percentage(p) => fp_mul(10_000_000_000, p),
        }
    }

    /// Evaluate the trigger rule for an estimated position against the
    /// observed price: a trigger fires exactly when the edge reaches
    /// the threshold, carrying a confidence from the filter's
    /// uncertainty and a pattern-specific window.
    pub fn evaluate_trigger_conditions(&self, position: i64, uncertainty: i64,
        request: &WorkerRequest) -> (r: Option<TriggerData>)
        ensures
            trigger_matches(r, position, uncertainty, request,
                self.config.trigger_threshold, self.config.position_sizing),
    {
        let edge = fp_abs(fp_sub(position, request.tick.price));
        if edge < self.config.trigger_threshold {
            return None;
        }
        let confidence: i64 = if uncertainty > 0 {
            let q = fp_div(edge, uncertainty);
            if q > 950_000 {
                950_000
            } else if q < 50_000 {
                50_000
            } else {
                q
            }
        } else {
            500_000
        };
        let size = self.calculate_position_size(edge, confidence);
        let window_duration: i64 = if request.pattern_id == 51 {
            30_000_000
        } else if request.pattern_id == 68 || request.pattern_id == 75 {
            5_000_000
        } else if request.pattern_id == 56 {
            1_000_000
        } else {
            10_000_000
        };
        Some(TriggerData {
            pattern_id: request.pattern_id,
            book: request.tick.book.clone(),
            target_price: position,
            expected_edge: edge,
            confidence,
            window_duration,
            size,
        })
    }

    /// Snapshot a filter for persistence.
    pub fn extract_filter_state(&self, filter: &PatternFilter, request: &WorkerRequest)
        -> (r: FilterState)
        requires
            filter.wf(),
        ensures
            r.pattern_id == request.pattern_id,
            r.market_id@ == request.market_id@,
            r.state_vector@ == filter.base_spec().x@,
            r.covariance_matrix@ == filter.base_spec().p@,
            r.current_regime == filter.base_spec().current_regime,
            r.last_update_ns == request.timestamp_ns,
    {
        let state_vector = filter.state_snapshot();
        let covariance_matrix = copy_vec(filter_cov(filter));
        FilterState {
            pattern_id: request.pattern_id,
            market_id: request.market_id.clone(),
            state_vector,
            covariance_matrix,
            current_regime: filter.regime(),
            last_update_ns: request.timestamp_ns,
        }
    }

    /// Process one request end to end: validate, load or cold-start
    /// the filter, predict and fold in the tick, evaluate the trigger,
    /// persist the new state, and account the request. The status is
    /// `InvalidData` exactly for invalid requests, `FilterNotFound`
    /// exactly for unregistered pattern ids, and `Success` otherwise.
    pub fn process_request(&mut self, request: WorkerRequest) -> (r: WorkerResponse)
        requires
            old(self).wf(),
        ensures
            final(self).wf(),
            (r.status is InvalidData) == !request_valid(&request),
            (r.status is FilterNotFound) == (request_valid(&request)
                && !worker_pattern_known(request.pattern_id)),
            (r.status is Success) == (request_valid(&request)
                && worker_pattern_known(request.pattern_id)),
            r.request_id@ == request.request_id@,
            !(r.status is Success) ==> r.trigger is None,
            r.status is Success ==> ({
                let fs = &r.filter_state;
                &&& fs.pattern_id == request.pattern_id
                &&& fs.market_id@ == request.market_id@
                &&& fs.last_update_ns == request.timestamp_ns
                &&& fs.current_regime == Regime::Quiet
                &&& fs.state_vector@
                    == worker_filter_x(request.pattern_id, request.tick.price)
                &&& fs.covariance_matrix@
                    == worker_filter_p(request.pattern_id, request.tick.price)
            }),
            r.status is Success ==> ({
                let n = pattern_dim(request.pattern_id);
                trigger_matches(
                    r.trigger,
                    worker_filter_x(request.pattern_id, request.tick.price)[0],
                    at2(worker_filter_p(request.pattern_id, request.tick.price), n, 0, 0),
                    &request,
                    old(self).config.trigger_threshold,
                    old(self).config.position_sizing,
                )
            }),
            r.processing_time_us == 0,
            !old(self).config.enable_persistence
                ==> final(self).state_manager == old(self).state_manager,
            (r.status is Success && old(self).config.enable_persistence
                && vstd::utf8::is_ascii_chars(old(self).state_manager.key_prefix@)
                && vstd::utf8::is_ascii_chars(request.market_id@)) ==> ({
                let key = crate::checkpoint::checkpoint_key_chars(
                    old(self).state_manager.key_prefix@,
                    request.pattern_id,
                    request.market_id@,
                );
                &&& final(self).state_manager.client.value_of(key) is Some
                &&& vstd::utf8::encode_utf8(
                        final(self).state_manager.client.value_of(key)->0)
                    == crate::codec::encode_spec(r.filter_state)
            }),
            final(self).metrics.total_requests
                == crate::risk::add_sat(old(self).metrics.total_requests),
            r.status is Success ==> final(self).metrics.successful_requests
                == crate::risk::add_sat(old(self).metrics.successful_requests),
            final(self).config == old(self).config,
    {
        if self.metrics.total_requests < u64::MAX {
            self.metrics.total_requests = self.metrics.total_requests + 1;
        }
        if let Err(status) = self.validate_request(&request) {
            return WorkerResponse {
                request_id: request.request_id,
                status,
                trigger: None,
                processing_time_us: 0,
                filter_state: empty_filter_state(),
            };
        }
        // Load a checkpoint if one exists; always build the filter
        // from the registry. A missing or corrupt checkpoint is a
        // cold start.
        let loaded = self.state_manager.load_filter_state(
            request.pattern_id, request.market_id.as_str());
        match loaded {
            Some(_) => {
                if self.metrics.cache_hits < u64::MAX {
                    self.metrics.cache_hits = self.metrics.cache_hits + 1;
                }
            },
            None => {
                if self.metrics.cache_misses < u64::MAX {
                    self.metrics.cache_misses = self.metrics.cache_misses + 1;
                }
            },
        }
        let mut filter = match KalmanFilterFactory::create_filter(request.pattern_id, 50_000) {
            Ok(f) => f,
            Err(_) => {
                return WorkerResponse {
                    request_id: request.request_id,
                    status: WorkerStatus::FilterNotFound,
                    trigger: None,
                    processing_time_us: 0,
                    filter_state: empty_filter_state(),
                };
            },
        };
        filter.predict();
        let _applied = filter.update(request.tick.price);
        let position = {
            let snapshot = filter.state_snapshot();
            snapshot[0]
        };
        let uncertainty = filter.position_uncertainty();
        let trigger = self.evaluate_trigger_conditions(position, uncertainty, &request);
        if trigger.is_some() {
            if self.metrics.triggers_generated < u64::MAX {
                self.metrics.triggers_generated = self.metrics.triggers_generated + 1;
            }
        }
        let state = self.extract_filter_state(&filter, &request);
        if self.config.enable_persistence {
            let _ = self.state_manager.save_filter_state(&state);
        }
        if self.metrics.successful_requests < u64::MAX {
            self.metrics.successful_requests = self.metrics.successful_requests + 1;
        }
        WorkerResponse {
            request_id: request.request_id,
            status: WorkerStatus::Success,
            trigger,
            processing_time_us: 0,
            filter_state: state,
        }
    }

    /// Current metrics.
    pub fn get_metrics(&self) -> (r: &WorkerMetrics)
        ensures
            *r == self.metrics,
    {
        &self.metrics
    }

    /// Reset metrics to zero.
    pub fn reset_metrics(&mut self)
        ensures
            final(self).metrics.total_requests == 0,
            final(self).metrics.successful_requests == 0,
            final(self).metrics.triggers_generated == 0,
            final(self).metrics.cache_hits == 0,
            final(self).metrics.cache_misses == 0,
            final(self).config == old(self).config,
            final(self).state_manager == old(self).state_manager,
    {
        self.metrics = WorkerMetrics {
            total_requests: 0,
            successful_requests: 0,
            triggers_generated: 0,
            cache_hits: 0,
            cache_misses: 0,
        };
    }
}

/// The covariance of whichever filter.
fn filter_cov(filter: &PatternFilter) -> (r: &Vec<i64>)
    ensures
        r@ == filter.base_spec().p@,
{
    match filter {
        PatternFilter::HtInference(kf) => &kf.base.p,
        PatternFilter::Propagation(kf) => &kf.base.p,
        PatternFilter::VelocityConvexity(kf) => &kf.base.p,
        PatternFilter::MicroSuspension(kf) => &kf.base.p,
    }
}

fn copy_vec(v: &Vec<i64>) -> (r: Vec<i64>)
    ensures
        r@ == v@,
{
    let mut r: Vec<i64> = Vec::new();
    let mut i: usize = 0;
    while i < v.len()
        invariant
            i <= v.len(),
            r.len() == i,
            forall|k: int| 0 <= k < i ==> r@[k] == v@[k],
        decreases v.len() - i,
    {
        r.push(v[i]);
        i = i + 1;
    }
    proof {
        assert(r@ =~= v@);
    }
    r
}

/// An empty placeholder snapshot for failed requests.
fn empty_filter_state() -> (r: FilterState)
    ensures
        r.pattern_id == 0,
        r.state_vector@.len() == 0,
        r.covariance_matrix@.len() == 0,
        r.current_regime == Regime::Quiet,
        r.last_update_ns == 0,
{
    FilterState {
        pattern_id: 0,
        market_id: String::new(),
        state_vector: Vec::new(),
        covariance_matrix: Vec::new(),
        current_regime: Regime::Quiet,
        last_update_ns: 0,
    }
}

/// Entry point mirroring the host's fetch hook: build a worker, run
/// the request, and hand any trigger to the bet queue.
pub fn bun_fetch_handler(req: WorkerRequest, env: &WorkerEnvironment) -> (r: WorkerResponse)
    ensures
        (r.status is InvalidData) == !request_valid(&req),
{
    let config = WorkerConfig::new_default();
    let mut worker = BunWorker::new(config);
    let response = worker.process_request(req);
    if let Some(trigger) = &response.trigger {
        let _ = send_to_bet_queue(trigger, env);
    }
    response
}

/// Queue a trigger for execution; the in-memory stand-in always
/// accepts.
pub fn send_to_bet_queue(trigger: &TriggerData, _env: &WorkerEnvironment)
    -> (r: Result<(), WorkerStatus>)
    ensures
        r is Ok,
{
    let _ = trigger;
    Ok(())
}

} // verus!
