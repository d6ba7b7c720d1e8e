//! Order books, market state and the latency correlator.

use poly_kalshi_arb::correlator::{
    calculate_pattern_confidence, ConvergenceKalman, LatencyArbitrageEngine,
};
use poly_kalshi_arb::market::MarketState;
use poly_kalshi_arb::orderbook::AtomicOrderbook;
use poly_kalshi_arb::types::{MarketTier, MarketType, Platform, PriceObservation};

/// Each side's (price, size, ts) reads back exactly as the last
/// consistent publication: no torn or mixed values.
#[test]
fn orderbook_snapshot_consistent() {
    let mut book = AtomicOrderbook::new();
    book.update_yes(52, 700, 1_000);
    book.update_no(49, 300, 2_000);
    let (yes_price, yes_size, no_price, no_size, latest) = book.load();
    assert_eq!((yes_price, yes_size), (52, 700));
    assert_eq!((no_price, no_size), (49, 300));
    assert_eq!(latest, 2_000);

    // A new full level replaces both price and size together.
    book.update_yes(61, 950, 3_000);
    let level = book.load_yes();
    assert_eq!((level.price, level.size, level.timestamp_ns), (61, 950, 3_000));
}

/// Re-applying an observation with the same prices and an older or
/// equal timestamp is a no-op: timestamps are strictly monotonic.
#[test]
fn orderbook_stale_update_is_noop() {
    let mut book = AtomicOrderbook::new();
    book.update_yes(50, 100, 5_000);
    book.update_yes(50, 100, 5_000);
    let level = book.load_yes();
    assert_eq!((level.price, level.size, level.timestamp_ns), (50, 100, 5_000));

    book.update_yes(77, 1, 4_999);
    let level = book.load_yes();
    assert_eq!((level.price, level.size, level.timestamp_ns), (50, 100, 5_000));

    book.update_yes(77, 1, 5_001);
    let level = book.load_yes();
    assert_eq!((level.price, level.size, level.timestamp_ns), (77, 1, 5_001));
}

#[test]
fn orderbook_spread_check() {
    let mut book = AtomicOrderbook::new();
    book.update_yes(60, 10, 1);
    book.update_no(50, 10, 2);
    // Binary identity: 60 + 50 - 100 = 10.
    assert_eq!(book.check_spread(5, true), Some(10));
    assert_eq!(book.check_spread(11, true), None);
    // Sports identity: ask - bid = 50 - 60 = -10.
    assert_eq!(book.check_spread(10, false), Some(-10));
}

/// Venue A at yes=50/no=50, venue B at yes=49/no=51: a one-cent
/// threshold reports the one-cent disparity, a two-cent threshold
/// reports none.
#[test]
fn binary_arb_detection() {
    let mut market = MarketState::new(
        7, MarketTier::Tier1, Platform::Kalshi, Platform::Polymarket, 1);
    market.fast_book.update_yes(50, 100, 1_000_000_000);
    market.fast_book.update_no(50, 100, 1_000_000_000);
    market.slow_book.update_yes(49, 100, 1_000_000_100);
    market.slow_book.update_no(51, 100, 1_000_000_100);

    let hit = market.check_arbs(1);
    assert!(hit.is_some());
    let (disparity, leader) = hit.unwrap();
    assert_eq!(disparity, 1);
    assert_eq!(leader, Platform::Polymarket);

    assert_eq!(market.check_arbs(2), None);
}

#[test]
fn stale_books_do_not_signal() {
    let mut market = MarketState::new(
        9, MarketTier::Tier2, Platform::Kalshi, Platform::Polymarket, 1);
    market.fast_book.update_yes(55, 100, 1_000_000_000);
    // Slow venue is a full second behind: outside the 500 ms window.
    market.slow_book.update_yes(49, 100, 2_000_000_100);
    assert_eq!(market.check_arbs(1), None);
}

fn obs(market_id: u16, provider: Platform, price: u16, ts: u64) -> PriceObservation {
    PriceObservation {
        market_id,
        provider,
        market_type: MarketType::Moneyline,
        price,
        size: 500,
        timestamp_ns: ts,
        tier: MarketTier::Tier1,
    }
}

/// A 3-cent disparity 10 ms apart yields no signal; 100 ms apart it
/// yields one whose confidence carries the full time factor.
#[test]
fn convergence_pruning() {
    let mut engine = LatencyArbitrageEngine::new();
    engine.add_price_observation(obs(1, Platform::Kalshi, 52, 1_000_000_000));
    engine.add_price_observation(obs(2, Platform::Polymarket, 49, 1_010_000_000));
    assert_eq!(engine.get_signals().len(), 0);

    let mut engine = LatencyArbitrageEngine::new();
    engine.add_price_observation(obs(1, Platform::Kalshi, 52, 1_000_000_000));
    engine.add_price_observation(obs(2, Platform::Polymarket, 49, 1_100_000_000));
    let signals = engine.get_signals();
    assert_eq!(signals.len(), 1);
    let s = &signals[0];
    assert_eq!(s.disparity_cents.abs(), 3);
    // Pattern 74 (cross-venue) base 0.80, disparity factor 0.3, time
    // factor 1.0: confidence 0.24 in thousandths.
    assert_eq!(s.pattern_id, Some(74));
    assert_eq!(s.confidence, 240);
}

/// No emitted signal ever carries a convergence horizon beyond the
/// five-second bound, and signals age out after thirty seconds.
#[test]
fn signal_horizon_and_ttl() {
    let mut engine = LatencyArbitrageEngine::new();
    engine.add_price_observation(obs(1, Platform::Kalshi, 60, 1_000_000_000));
    engine.add_price_observation(obs(2, Platform::Polymarket, 49, 1_200_000_000));
    assert!(engine.get_signals().len() >= 1);
    for s in engine.get_signals() {
        assert!(s.expected_convergence_ns <= 5_000_000_000);
    }
    engine.clear_old_signals(40_000_000_000, 30_000_000_000);
    assert_eq!(engine.get_signals().len(), 0);
}

#[test]
fn confidence_formula_exact() {
    assert_eq!(calculate_pattern_confidence(74, 3, 150_000_000), 240);
    // Saturated disparity factor: base 0.8 * 1.0 * 0.8.
    assert_eq!(calculate_pattern_confidence(70, 15, 700_000_000), 640);
    // Steam/behavioural base 0.75, saturated disparity, time factor
    // 0.5.
    assert_eq!(calculate_pattern_confidence(87, 10, 2_000_000_000), 375);
}

#[test]
fn convergence_kalman_tracks_difference() {
    let mut kf = ConvergenceKalman::new();
    kf.update(5_000_000);
    kf.predict(1_000_000);
    // Already inside the threshold: converged now.
    assert_eq!(kf.predicted_convergence_time(10_000_000), Some(0));
}

/// The Joseph-form update keeps the covariance exactly symmetric and
/// positive semidefinite within tolerance, even from a correlated
/// start.
#[test]
fn convergence_kalman_covariance_stays_symmetric() {
    let mut kf = ConvergenceKalman::new();
    kf.covariance = vec![
        1_000_000, 500_000, 0,
        500_000, 1_000_000, 0,
        0, 0, 1_000_000,
    ];
    assert!(kf.update(2_000_000));
    for i in 0..3 {
        for j in 0..3 {
            assert_eq!(kf.covariance[i * 3 + j], kf.covariance[j * 3 + i]);
        }
    }
    // Positive semidefiniteness via leading principal minors.
    let c: Vec<f64> = kf.covariance.iter().map(|&v| v as f64 / 1e6).collect();
    let m1 = c[0];
    let m2 = c[0] * c[4] - c[1] * c[3];
    let m3 = c[0] * (c[4] * c[8] - c[5] * c[7]) - c[1] * (c[3] * c[8] - c[5] * c[6])
        + c[2] * (c[3] * c[7] - c[4] * c[6]);
    assert!(m1 >= -1e-9 && m2 >= -1e-9 && m3 >= -1e-9);
}

#[test]
fn tier_constraints() {
    assert_eq!(MarketTier::Tier1.constraint(), "Direct betting volume");
    assert_eq!(MarketTier::Tier4.constraint(), "Correlation matrix updates");
    assert_eq!(MarketTier::Tier1.half_life_ns(), 300_000_000);
    assert_eq!(MarketTier::Tier2.half_life_ns(), 950_000_000);
    assert_eq!(MarketTier::Tier3.half_life_ns(), 1_400_000_000);
    assert_eq!(MarketTier::Tier4.half_life_ns(), 3_500_000_000);
}
