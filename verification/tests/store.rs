//! Checkpoint store and wire format: the in-memory client, the state
//! manager, and the serialize/deserialize round trip.

use poly_kalshi_arb::checkpoint::{MockRedisClient, RedisStateManager};
use poly_kalshi_arb::codec::{decode_filter_state, encode_filter_state, FilterState};
use poly_kalshi_arb::kalman::patterns::HalfTimeInferenceKF;
use poly_kalshi_arb::types::Regime;

#[test]
fn test_mock_redis_client() {
    let mut client = MockRedisClient::new();

    assert_eq!(client.get("test"), None);

    client.set("test".to_string(), "value".to_string(), None);
    assert_eq!(client.get("test"), Some("value".to_string()));

    assert!(client.delete("test"));
    assert_eq!(client.get("test"), None);
}

#[test]
fn test_mock_redis_client_overwrite_and_clear() {
    let mut client = MockRedisClient::new();
    client.set("a".to_string(), "1".to_string(), None);
    client.set("a".to_string(), "2".to_string(), Some(60));
    assert_eq!(client.get("a"), Some("2".to_string()));
    client.set("b".to_string(), "3".to_string(), None);
    client.clear();
    assert_eq!(client.get("a"), None);
    assert_eq!(client.get("b"), None);
    assert!(!client.delete("a"));
}

#[test]
fn test_redis_state_manager() {
    let mut manager = RedisStateManager::new("test".to_string(), 3600);

    let state = FilterState {
        pattern_id: 51,
        market_id: "test_market".to_string(),
        state_vector: vec![1_000_000, 2_000_000, 3_000_000],
        covariance_matrix: vec![1_000_000],
        current_regime: Regime::Steam,
        last_update_ns: 123456789,
    };

    // Initially no state.
    assert!(manager.load_filter_state(51, "test_market").is_none());

    // Save, then load.
    assert!(manager.save_filter_state(&state));

    let loaded_state = manager.load_filter_state(51, "test_market");
    assert!(loaded_state.is_some());

    let loaded = loaded_state.unwrap();
    assert_eq!(loaded.pattern_id, 51);
    assert_eq!(loaded.market_id, "test_market");
    assert_eq!(loaded.current_regime.as_str(), "steam");
    assert_eq!(loaded.state_vector, vec![1_000_000, 2_000_000, 3_000_000]);
    assert_eq!(loaded.covariance_matrix, vec![1_000_000]);
    assert_eq!(loaded.last_update_ns, 123456789);
}

#[test]
fn test_delete_filter_state() {
    let mut manager = RedisStateManager::new("kf".to_string(), 60);
    let state = FilterState {
        pattern_id: 56,
        market_id: "m1".to_string(),
        state_vector: vec![7],
        covariance_matrix: vec![1, 0, 0, 1],
        current_regime: Regime::Quiet,
        last_update_ns: 5,
    };
    assert!(manager.save_filter_state(&state));
    assert!(manager.load_filter_state(56, "m1").is_some());
    assert!(manager.delete_filter_state(56, "m1"));
    assert!(manager.load_filter_state(56, "m1").is_none());
}

/// Serialize-then-deserialize yields identical fields, and a filter
/// restored from the round-tripped state predicts bit-identically.
#[test]
fn checkpoint_round_trip_bit_identical_predict() {
    let mut kf = HalfTimeInferenceKF::new(50_000);
    kf.base.predict();
    kf.update_with_both_markets(700_000, 219_500_000);

    let state = FilterState {
        pattern_id: 51,
        market_id: "nba_total_1".to_string(),
        state_vector: kf.base.x.clone(),
        covariance_matrix: kf.base.p.clone(),
        current_regime: kf.base.current_regime,
        last_update_ns: 42,
    };

    let encoded = encode_filter_state(&state).expect("state must encode");
    let decoded = decode_filter_state(encoded.as_str()).expect("state must decode");

    assert_eq!(decoded.pattern_id, state.pattern_id);
    assert_eq!(decoded.market_id, state.market_id);
    assert_eq!(decoded.state_vector, state.state_vector);
    assert_eq!(decoded.covariance_matrix, state.covariance_matrix);
    assert_eq!(decoded.current_regime, state.current_regime);
    assert_eq!(decoded.last_update_ns, state.last_update_ns);

    // Restore a second filter from the decoded state: its next predict
    // output is bit-identical to the original's.
    let mut restored = HalfTimeInferenceKF::new(50_000);
    restored.base.x = decoded.state_vector.clone();
    restored.base.p = decoded.covariance_matrix.clone();
    restored.base.current_regime = decoded.current_regime;

    kf.base.predict();
    restored.base.predict();
    assert_eq!(kf.base.x, restored.base.x);
    assert_eq!(kf.base.p, restored.base.p);
}

#[test]
fn decode_rejects_corrupt_entries() {
    assert!(decode_filter_state("").is_none());
    assert!(decode_filter_state("not a checkpoint").is_none());
    assert!(decode_filter_state("0000000000000000005").is_none());
    // A valid checkpoint with one flipped digit position still parses
    // or is rejected, never panics.
    let state = FilterState {
        pattern_id: 7,
        market_id: "x".to_string(),
        state_vector: vec![-5],
        covariance_matrix: vec![],
        current_regime: Regime::Suspended,
        last_update_ns: 1,
    };
    let encoded = encode_filter_state(&state).unwrap();
    let mut corrupted = encoded.clone().into_bytes();
    corrupted[20] = b'9';
    if let Ok(sc) = String::from_utf8(corrupted) {
        assert!(decode_filter_state(sc.as_str()).is_none());
    }
}

#[test]
fn encode_rejects_non_ascii_market() {
    let state = FilterState {
        pattern_id: 1,
        market_id: "caf\u{e9}".to_string(),
        state_vector: vec![],
        covariance_matrix: vec![],
        current_regime: Regime::Quiet,
        last_update_ns: 0,
    };
    assert!(encode_filter_state(&state).is_none());
}
