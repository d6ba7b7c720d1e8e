//! Risk gate scenarios: exposure limits, circuit breakers, half-life
//! decay, sizing and fill probability.

use poly_kalshi_arb::correlator::LatencySignal;
use poly_kalshi_arb::execution::{EdgeDecayModel, FillProbabilityEstimator};
use poly_kalshi_arb::execution::LatencyExecutionEngine;
use poly_kalshi_arb::risk::{
    CircuitState, OrderSizer, RiskAlert, RiskConfig, RiskManagementEngine, RiskRejectionReason,
};
use poly_kalshi_arb::types::{MarketTier, MarketType, Platform, PriceObservation};

fn leg(market_id: u16, provider: Platform, price: u16, size: u32, ts: u64) -> PriceObservation {
    PriceObservation {
        market_id,
        provider,
        market_type: MarketType::Moneyline,
        price,
        size,
        timestamp_ns: ts,
        tier: MarketTier::Tier1,
    }
}

fn signal(size: u32) -> LatencySignal {
    LatencySignal {
        fast_market: leg(1, Platform::Kalshi, 54, size, 1_000_000_000),
        slow_market: leg(2, Platform::Polymarket, 49, size, 1_200_000_000),
        disparity_cents: 5,
        expected_convergence_ns: 300_000_000,
        pattern_id: Some(74),
        confidence: 400,
    }
}

/// With a 10 000-cent limit and 9 500 already net on the fast venue, a
/// 1 000-cent signal is rejected with `ExposureLimit` and a 500-cent
/// signal is accepted; the accepted intent leaves the venue exactly at
/// the limit, never beyond it.
#[test]
fn exposure_rejection() {
    let config = RiskConfig {
        per_venue_limit_cents: 10_000,
        ..RiskConfig::new_default()
    };
    let mut engine = RiskManagementEngine::new(config);
    engine.exposure.apply_fill(Platform::Kalshi, 9_500);

    let rejected = engine.evaluate_trade_risk(&signal(1_000), 2_000_000_000);
    assert_eq!(rejected, Err(RiskRejectionReason::ExposureLimit));

    let accepted = engine.evaluate_trade_risk(&signal(500), 2_000_000_000);
    assert!(accepted.is_ok());
    assert!(engine.exposure.net_exposure(Platform::Kalshi).abs() <= 10_000);
    assert!(engine.exposure.net_exposure(Platform::Polymarket).abs() <= 10_000);
}

/// Five sequential failures open the fast venue's breaker; the next
/// signal is rejected with `CircuitBreaker`; after the cool-off a
/// probe is admitted, and a success closes the breaker.
#[test]
fn circuit_breaker_lifecycle() {
    let mut engine = RiskManagementEngine::new(RiskConfig::new_default());
    let t0: u64 = 10_000_000_000;
    for _ in 0..5 {
        engine.record_trade_execution(Platform::Kalshi, Platform::Polymarket, false, t0);
    }
    assert_eq!(engine.breaker_state(Platform::Kalshi), CircuitState::Open);

    let rejected = engine.evaluate_trade_risk(&signal(500), t0 + 1_000_000_000);
    assert_eq!(rejected, Err(RiskRejectionReason::CircuitBreaker));

    // After the 60 s cool-off a probe is admitted.
    let probe = engine.evaluate_trade_risk(&signal(500), t0 + 61_000_000_000);
    assert!(probe.is_ok());
    assert_eq!(engine.breaker_state(Platform::Kalshi), CircuitState::HalfOpen);

    engine.record_trade_execution(Platform::Kalshi, Platform::Polymarket, true, t0);
    assert_eq!(engine.breaker_state(Platform::Kalshi), CircuitState::Closed);
}

/// A failure during a half-open probe reopens the breaker.
#[test]
fn circuit_breaker_probe_failure_reopens() {
    let mut engine = RiskManagementEngine::new(RiskConfig::new_default());
    let t0: u64 = 10_000_000_000;
    for _ in 0..5 {
        engine.record_trade_execution(Platform::Kalshi, Platform::Polymarket, false, t0);
    }
    let _ = engine.evaluate_trade_risk(&signal(500), t0 + 61_000_000_000);
    assert_eq!(engine.breaker_state(Platform::Kalshi), CircuitState::HalfOpen);
    engine.record_trade_execution(Platform::Kalshi, Platform::Polymarket, false, t0);
    assert_eq!(engine.breaker_state(Platform::Kalshi), CircuitState::Open);
}

/// With an initial disparity of five cents and a 300 ms half-life, a
/// delay of 600 ms leaves 1.25 cents: under both the 30% floor (1.5
/// cents) and the absolute two-cent floor.
#[test]
fn half_life_decay_floor() {
    let model = EdgeDecayModel::new(300_000_000, 5);
    assert_eq!(model.remaining_edge_millicents(0), 5_000);
    assert_eq!(model.remaining_edge_millicents(300_000_000), 2_500);
    let after_two_half_lives = model.remaining_edge_millicents(600_000_000);
    assert_eq!(after_two_half_lives, 1_250);
    assert!(after_two_half_lives < 1_500);
    assert!(after_two_half_lives < 2_000);
    assert_eq!(model.remaining_edge(600_000_000), 1);
}

#[test]
fn edge_decay_model_signed() {
    let model = EdgeDecayModel::new(1_000_000_000, -8);
    assert_eq!(model.remaining_edge(0), -8);
    assert_eq!(model.remaining_edge(1_000_000_000), -4);
    // Past forty half-lives nothing remains.
    assert_eq!(model.remaining_edge(41_000_000_000), 0);
}

#[test]
fn fill_probability_estimates() {
    let est = FillProbabilityEstimator::new();
    assert_eq!(est.estimate_fill_probability(Platform::Kalshi, 1000, 0), 950);
    assert_eq!(est.estimate_fill_probability(Platform::Polymarket, 1000, 0), 900);
    assert_eq!(est.estimate_fill_probability(Platform::DraftKings, 1000, 0), 850);
    assert_eq!(est.estimate_fill_probability(Platform::FanDuel, 1000, 0), 800);
    // Unknown size defaults to 0.8; ten queue positions cost 0.2.
    assert_eq!(est.estimate_fill_probability(Platform::Kalshi, 500, 10), 600);
    // The floor is 0.1 however deep the queue.
    assert_eq!(est.estimate_fill_probability(Platform::Kalshi, 500, 500), 100);
}

#[test]
fn optimal_delay_prefers_immediate_execution_when_decay_dominates() {
    let est = FillProbabilityEstimator::new();
    let model = EdgeDecayModel::new(300_000_000, 5);
    let delay = model.optimal_execution_time(&est, Platform::Kalshi, Platform::Polymarket, 500);
    assert_eq!(delay, 0);
}

#[test]
fn order_sizer_caps_and_floors() {
    let sizer = OrderSizer::new();
    // Default volume estimate 100 000 cents, 5% cap: 5 000.
    assert_eq!(sizer.calculate_safe_size(Platform::Kalshi, MarketType::Moneyline, 9_000, 50),
        5_000);
    assert_eq!(sizer.calculate_safe_size(Platform::Kalshi, MarketType::Moneyline, 2_000, 50),
        2_000);
    // The floor is 100 cents.
    assert_eq!(sizer.calculate_safe_size(Platform::Kalshi, MarketType::Moneyline, 9_000, 0),
        100);
}

#[test]
fn order_sizer_ema_smoothing() {
    let mut sizer = OrderSizer::new();
    sizer.update_volume_estimate(Platform::Kalshi, MarketType::Total, 1_000_000);
    // First observation from a zero prior: one tenth.
    assert_eq!(sizer.calculate_safe_size(Platform::Kalshi, MarketType::Total, 100_000, 50),
        5_000);
    sizer.update_volume_estimate(Platform::Kalshi, MarketType::Total, 1_000_000);
    // (9 * 100 000 + 1 000 000) / 10 = 190 000; 5% of that is 9 500.
    assert_eq!(sizer.calculate_safe_size(Platform::Kalshi, MarketType::Total, 100_000, 50),
        9_500);
}

/// An approved signal's recommended sizes respect the floor.
#[test]
fn approval_carries_floored_sizes() {
    let mut engine = RiskManagementEngine::new(RiskConfig::new_default());
    let approved = engine.evaluate_trade_risk(&signal(500), 2_000_000_000).unwrap();
    assert!(approved.approved);
    assert!(approved.recommended_fast_size >= 100);
    assert!(approved.recommended_slow_size >= 100);
}

#[test]
fn approved_risk_score_exact() {
    let mut engine = RiskManagementEngine::new(RiskConfig::new_default());
    let approved = engine.evaluate_trade_risk(&signal(500), 2_000_000_000).unwrap();
    // Fresh breakers: no unreliability; 5-cent edge; 0.4 confidence:
    // 0.38 + 0.18 in fixed point.
    assert_eq!(approved.risk_score, 560_000);
    assert!(approved.risk_score >= 0 && approved.risk_score <= 1_000_000);
}

#[test]
fn pending_alerts_surface_breakers_and_exposure() {
    let config = RiskConfig {
        per_venue_limit_cents: 10_000,
        ..RiskConfig::new_default()
    };
    let mut engine = RiskManagementEngine::new(config);
    assert_eq!(engine.pending_alerts().len(), 0);

    for _ in 0..5 {
        engine.record_trade_execution(Platform::Kalshi, Platform::Polymarket, false, 1_000);
    }
    engine.exposure.apply_fill(Platform::DraftKings, 9_000);
    let alerts = engine.pending_alerts();
    assert_eq!(alerts.len(), 3);
    assert!(matches!(alerts[0],
        RiskAlert::CircuitBreaker { venue: Platform::Kalshi, state: CircuitState::Open }));
    assert!(matches!(alerts[1],
        RiskAlert::CircuitBreaker { venue: Platform::Polymarket, state: CircuitState::Open }));
    assert!(matches!(alerts[2],
        RiskAlert::ExposureLimit { venue: Platform::DraftKings, exposure_cents: 9_000,
            limit_cents: 10_000 }));
}

#[test]
fn execution_engine_schedules_and_cancels() {
    let engine = LatencyExecutionEngine::new();
    // A healthy 5-cent signal becomes a request whose deadline is the
    // optimal delay (zero here) plus the convergence horizon.
    let req = engine.optimize_execution_request(&signal(500), 1_000_000_000).unwrap();
    assert_eq!(req.execution_deadline_ns, 1_000_000_000 + 300_000_000);
    assert_eq!(req.fill_probability_milli, 500);
    assert_eq!(req.max_edge_decay_cents, 2);

    // A one-cent signal leaves under two cents at execution: dropped.
    let mut tiny = signal(500);
    tiny.disparity_cents = 1;
    assert!(engine.optimize_execution_request(&tiny, 1_000_000_000).is_none());

    let mut engine = LatencyExecutionEngine::new();
    let req2 = engine.optimize_execution_request(&signal(500), 1_000_000_000).unwrap();
    let id = engine.submit(req2);
    assert_eq!(engine.get_execution_stats(), 1);
    let cancelled = engine.monitor_executions(2_000_000_000);
    assert_eq!(cancelled.len(), 1);
    assert_eq!(cancelled[0].signal_id, id);
    assert!(!cancelled[0].success);
    assert_eq!(cancelled[0].edge_decay_cents, 5);
    assert_eq!(cancelled[0].error_message.as_deref(), Some("execution deadline exceeded"));
    assert_eq!(engine.get_execution_stats(), 0);
}
