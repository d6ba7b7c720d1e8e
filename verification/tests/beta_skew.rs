//! Beta-skew tracking: the two-state line filter, the recursive
//! least-squares beta estimate, and the pair engine.

use poly_kalshi_arb::beta::{
    detect_beta_gap, KalmanFilter2D, Pattern73Config, Pattern73Engine, RecursiveLeastSquares,
};

#[test]
fn test_kalman_filter() {
    let mut kf = KalmanFilter2D::new(100_000_000, 10_000, 100_000);

    kf.update(100_500_000, 1_000_000_000);
    assert!((kf.get_price() - 100_500_000).abs() < 100_000);

    kf.update(101_000_000, 2_000_000_000);
    assert!((kf.get_price() - 101_000_000).abs() < 100_000);
}

#[test]
fn test_rls_filter() {
    let mut rls = RecursiveLeastSquares::new(950_000);

    // Points on y = 0.7 x with a little noise.
    for i in 0..20 {
        let x = i as f64;
        let y = 0.7 * x + (rand::random::<f64>() - 0.5) * 0.1;
        rls.update((x * 1e6) as i64, (y * 1e6) as i64);
    }

    assert!((rls.get_beta() - 700_000).abs() < 100_000);
}

#[test]
fn test_pattern_73_engine() {
    let config = Pattern73Config::new_default();
    let mut engine = Pattern73Engine::new(config);

    engine.update_player_prop("market1", "player1", "team1", 25_500_000, 1_000_000_000, 800_000);
    engine.update_team_total("market2", "team1", 220_500_000, 1_000_000_000);

    // Insufficient data: no opportunity yet.
    assert_eq!(engine.get_opportunities().len(), 0);
}

#[test]
fn beta_gap_decision_fires_on_large_lagged_moves() {
    let config = Pattern73Config::new_default();
    // Beta 0.9, a two-point prop move, a 50-point total, two elapsed
    // half-lives: most of the predicted 1.8-point move is overdue.
    let hit = detect_beta_gap(
        900_000, 2_000_000, 50_000_000, 4_000_000_000, 2_000_000_000, &config);
    assert!(hit.is_some());
    let (gap, fraction) = hit.unwrap();
    assert!(gap > 1_500_000);
    assert!(fraction >= config.min_gap_fraction);

    // A tiny move never fires.
    let miss = detect_beta_gap(
        900_000, 100_000, 50_000_000, 4_000_000_000, 2_000_000_000, &config);
    assert!(miss.is_none());
}

#[test]
fn beta_converges_then_engine_reports_it() {
    let config = Pattern73Config::new_default();
    let mut engine = Pattern73Engine::new(config);
    let mut ts: u64 = 1_000_000_000;
    let mut prop = 20_000_000i64;
    let mut total = 200_000_000i64;
    for _ in 0..15 {
        prop += 1_000_000;
        total += 600_000;
        engine.update_team_total("m2", "team1", total, ts);
        engine.update_player_prop("m1", "player1", "team1", prop, ts, 800_000);
        ts += 1_000_000_000;
    }
    let beta = engine.get_beta_relationship("player1", "team1");
    assert!(beta.is_some());
    // The totals moved at 0.6 per prop point.
    assert!((beta.unwrap() - 600_000).abs() < 150_000);
}
