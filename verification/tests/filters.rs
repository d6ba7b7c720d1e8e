//! Filter suite behaviour: creation, regime detection, the four
//! pattern filters, and the factory.

use poly_kalshi_arb::kalman::filter::AdaptiveKalmanFilter;
use poly_kalshi_arb::kalman::patterns::{
    HalfTimeInferenceKF, KalmanFilterFactory, MicroSuspensionKF, PathMarket, PropagationPathKF,
    VelocityConvexityKF,
};
use poly_kalshi_arb::types::Regime;

#[test]
fn test_adaptive_kalman_filter_creation() {
    let kf = AdaptiveKalmanFilter::new(50_000, 3);
    assert_eq!(kf.state_dim, 3);
    assert_eq!(kf.current_regime, Regime::Quiet);
}

#[test]
fn test_regime_detection() {
    let mut kf = AdaptiveKalmanFilter::new(50_000, 2);

    // Low velocities (0.1) keep the filter quiet.
    for _ in 0..10 {
        kf.detect_regime(100_000);
    }
    assert_eq!(kf.current_regime, Regime::Quiet);

    // High velocities (0.5) flip it to steam.
    for _ in 0..10 {
        kf.detect_regime(500_000);
    }
    assert_eq!(kf.current_regime, Regime::Steam);
}

#[test]
fn test_half_time_inference_filter() {
    let mut kf = HalfTimeInferenceKF::new(50_000);

    // A half-point half-time move and a 220.5 full-time observation.
    kf.update_with_both_markets(500_000, 220_500_000);

    let predicted_ft = kf.predict_ft_total();
    assert!(predicted_ft > 220_000_000);

    let state_vector = kf.get_state_vector();
    assert_eq!(state_vector.len(), 3);
    assert!(state_vector[0] > 0);

    let (_regime, _velocity, ht_influence) = kf.get_regime_info();
    assert!(ht_influence > 0);
}

#[test]
fn test_propagation_path_filter() {
    let mut kf = PropagationPathKF::new(20_000);

    let markets = vec![
        (PathMarket::Moneyline, 110_000_000i64),
        (PathMarket::Spread, -2_500_000i64),
    ];
    kf.update_partial_observation(&markets).unwrap();

    let delay = kf.get_propagation_delay(PathMarket::Moneyline, PathMarket::Props);
    assert!(delay > 0);
}

#[test]
fn test_propagation_path_empty_observation() {
    let mut kf = PropagationPathKF::new(20_000);
    let markets: Vec<(PathMarket, i64)> = Vec::new();
    assert!(kf.update_partial_observation(&markets).is_err());
}

#[test]
fn test_velocity_convexity_filter() {
    let mut kf = VelocityConvexityKF::new(10_000);

    // Four minutes remaining.
    kf.predict_with_time(240_000_000);

    let (position, velocity, acceleration) = kf.get_convexity_metrics();
    // Position and velocity stay at zero, while the clock coupling
    // injects roughly -k (about -0.5) into the acceleration.
    assert_eq!(position, 0);
    assert_eq!(velocity, 0);
    assert!(acceleration < -400_000 && acceleration > -600_000);
}

#[test]
fn test_micro_suspension_filter() {
    let mut kf = MicroSuspensionKF::new(1_000);

    kf.update_status(false);
    assert!(!kf.is_suspension_imminent());

    // Two confirming observations push the suspension probability
    // past one half and open the pre-freeze window.
    kf.update_status(true);
    kf.update_status(true);
    let window = kf.get_arbitrage_window();
    assert!(window > 0);
}

#[test]
fn test_filter_factory() {
    let kf = KalmanFilterFactory::create_filter(51, 50_000);
    assert!(kf.is_ok());

    let kf = KalmanFilterFactory::create_filter(999, 50_000);
    assert!(kf.is_err());
}

/// Covariance stays symmetric and positive semidefinite (within
/// numerical tolerance) across predicts and updates.
#[test]
fn covariance_symmetric_and_psd() {
    let mut kf = MicroSuspensionKF::new(1_000);
    for step in 0..20 {
        kf.base.predict();
        kf.update_status(step % 3 == 0);
        let p = &kf.base.p;
        // Symmetry is exact.
        assert_eq!(p[1], p[2]);
        // Minimum eigenvalue of the 2x2 symmetric matrix, in f64.
        let a = p[0] as f64 / 1e6;
        let b = p[1] as f64 / 1e6;
        let c = p[3] as f64 / 1e6;
        let min_eig = (a + c) / 2.0 - (((a - c) * (a - c) + 4.0 * b * b) / 4.0).sqrt();
        assert!(min_eig >= -1e-9);
    }

    let mut ht = HalfTimeInferenceKF::new(50_000);
    for _ in 0..10 {
        ht.base.predict();
        ht.update_with_both_markets(1_500_000, 222_500_000);
        let p = &ht.base.p;
        for i in 0..3 {
            for j in 0..3 {
                assert_eq!(p[i * 3 + j], p[j * 3 + i]);
            }
        }
    }
}

/// A 1.5-point half-time delta followed by full-time observations of
/// 222.5: the regime reaches steam after at least ten high-velocity
/// updates, and the prediction exceeds the observation by at least
/// half a point.
#[test]
fn ht_to_ft_edge() {
    let mut kf = HalfTimeInferenceKF::new(50_000);
    for _ in 0..12 {
        kf.base.predict();
        kf.update_with_both_markets(1_500_000, 222_500_000);
    }
    assert_eq!(kf.base.current_regime, Regime::Steam);
    let predicted = kf.predict_ft_total();
    assert!(predicted >= 222_500_000 + 500_000);
}
